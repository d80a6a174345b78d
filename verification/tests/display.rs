use tf2monitor::friendships::{friendship_lines, FriendshipLine};
use tf2monitor::appbus::{restart_sound_command, spectate_command};
use tf2monitor::colors::{
    chat_team_color, color_for_flag, hex_to_rgb, team_symbol_color, NamedColor, Rgb,
};
use tf2monitor::feed::{chat_row_segments, kill_row_segments, LobbyChat, LobbyKill};
use tf2monitor::http_cache::{cache_file_too_old, get_filename_from_url};
use tf2monitor::player_database::PlayerAttribute;
use tf2monitor::player_details::{
    kick_vote_command, player_heading, player_not_found_text, player_window_title,
    sort_bans_by_source, sourcebans_status, sourcebans_tooltip, steamid_labels, KickReason,
    SourceBansStatus,
};
use tf2monitor::records::{placeholder_account, FetchedData, Game};
use tf2monitor::reputation::Reputation;
use tf2monitor::scoreboard::{Player, Team};
use tf2monitor::sourcebans::SourceBan;
use tf2monitor::steamid::SteamID;

fn player(name: &str, team: Team) -> Player {
    Player {
        id: 3,
        steamid: SteamID::from_u64(76561197960435530),
        name: name.to_string(),
        team,
        score: 0,
        kills: 0,
        deaths: 0,
        crit_kills: 0,
        crit_deaths: 0,
        pingms: 0,
        alive: true,
        reputation: None,
    }
}

fn ban(source: &str, reason: &str) -> SourceBan {
    SourceBan {
        source: source.to_string(),
        steamid: SteamID::from_u64(76561197960435530),
        when: "2024".to_string(),
        ban_length: "Permanent".to_string(),
        reason: reason.to_string(),
    }
}

fn texts(segments: &[tf2monitor::feed::TextSegment]) -> Vec<String> {
    segments.iter().map(|s| s.text.clone()).collect()
}

#[test]
fn hex_colors() {
    assert_eq!(hex_to_rgb(0x89161D), Rgb { r: 0x89, g: 0x16, b: 0x1D });
    assert_eq!(hex_to_rgb(0x000000), Rgb { r: 0, g: 0, b: 0 });
    assert_eq!(hex_to_rgb(0xFFFFFF), Rgb { r: 255, g: 255, b: 255 });
    assert_eq!(hex_to_rgb(0x5b7a8c), Rgb { r: 0x5b, g: 0x7a, b: 0x8c });
}

#[test]
fn mark_and_team_colors() {
    assert_eq!(color_for_flag(PlayerAttribute::Cool), (NamedColor::Black, NamedColor::Gold));
    assert_eq!(
        color_for_flag(PlayerAttribute::Cheater),
        (NamedColor::Black, NamedColor::Custom(Rgb { r: 0xff, g: 0x00, b: 0x6e }))
    );
    assert_eq!(
        color_for_flag(PlayerAttribute::Suspicious),
        (NamedColor::Black, NamedColor::Custom(Rgb { r: 0xf0, g: 0x81, b: 0x49 }))
    );
    assert_eq!(chat_team_color(Team::Blue), NamedColor::Custom(Rgb { r: 0x99, g: 0xCC, b: 0xFF }));
    assert_eq!(chat_team_color(Team::Spec), NamedColor::Gray);
    assert_eq!(team_symbol_color(Team::Red), NamedColor::Custom(Rgb { r: 0xbd, g: 0x3b, b: 0x3b }));
    assert_eq!(team_symbol_color(Team::Unknown), NamedColor::Gray);
}

#[test]
fn chat_lines() {
    let chat = LobbyChat {
        steamid: SteamID::from_u64(76561197960435530),
        player_name: "logged".to_string(),
        message: "gg".to_string(),
        dead: true,
        team: true,
    };
    let p = player("current", Team::Red);
    let segs = chat_row_segments(&chat, Some(&p));
    assert_eq!(texts(&segs), vec!["💬 ", "*DEAD* ", "(TEAM) ", "current", ": ", "gg"]);
    assert_eq!(segs[3].color, NamedColor::Custom(Rgb { r: 0xFF, g: 0x40, b: 0x40 }));
    let chat = LobbyChat { dead: false, team: false, ..chat };
    let segs = chat_row_segments(&chat, None);
    assert_eq!(texts(&segs), vec!["💬 ", "logged", ": ", "gg"]);
    assert_eq!(segs[1].color, NamedColor::Gray);
}

#[test]
fn kill_lines() {
    let kill = LobbyKill {
        killer: SteamID::from_u64(76561197960435530),
        victim: SteamID::from_u64(76561197994359533),
        weapon: "scattergun".to_string(),
        crit: false,
    };
    let k = player("killer", Team::Blue);
    let segs = kill_row_segments(&kill, Some(&k), None);
    assert_eq!(
        texts(&segs),
        vec!["💀 ", "killer", " killed ", "76561197994359533", " with scattergun"]
    );
    assert_eq!(segs[3].color, NamedColor::Gray);
}

#[test]
fn cache_file_names() {
    assert_eq!(
        get_filename_from_url("https://bans.flux.tf/index.php?p=banlist&advSearch=x:1=2%20"),
        "bans_flux_tf_index_php_p_banlist_advSearch_x_1_2_20"
    );
    assert_eq!(get_filename_from_url("http://a.b/c"), "a_b_c");
    assert_eq!(get_filename_from_url(""), "");
}

#[test]
fn cache_files_expire() {
    let day: u64 = 86_400;
    assert!(!cache_file_too_old(None, 30));
    assert!(!cache_file_too_old(Some(30 * day), 30));
    assert!(cache_file_too_old(Some(30 * day + 1), 30));
    assert!(cache_file_too_old(Some(1), 0));
    assert!(!cache_file_too_old(Some(0), 0));
    // A negative lifetime is taken as a very large unsigned number.
    assert!(!cache_file_too_old(Some(1_000_000_000), -1));
    assert!(cache_file_too_old(Some(u64::MAX), -1));
}

#[test]
fn kick_votes() {
    assert_eq!(kick_vote_command(12, KickReason::Cheating), "callvote kick \"12 cheating\"");
    assert_eq!(kick_vote_command(0, KickReason::Idle), "callvote kick \"0 idle\"");
    assert_eq!(kick_vote_command(305, KickReason::Scamming), "callvote kick \"305 scamming\"");
}

#[test]
fn console_commands() {
    assert_eq!(spectate_command(true), "kill; menuopen");
    assert_eq!(spectate_command(false), "menuclosed");
    assert_eq!(restart_sound_command(), "snd_restart");
}

#[test]
fn bans_sorted_by_source_keep_their_order() {
    let bans = vec![
        ban("skial.com", "one"),
        ban("dpg.tf", "two"),
        ban("skial.com", "three"),
        ban("UGC-Gaming.net", "four"),
    ];
    let sorted = sort_bans_by_source(&bans);
    let reasons: Vec<&str> = sorted.iter().map(|b| b.reason.as_str()).collect();
    assert_eq!(reasons, vec!["four", "two", "one", "three"]);
}

#[test]
fn sourcebans_part_of_details() {
    assert!(matches!(sourcebans_status(None), SourceBansStatus::Loading));
    let clean = Reputation {
        steamid: SteamID::from_u64(76561197960435530),
        has_bad_reputation: false,
        source_bans: vec![],
    };
    assert!(matches!(sourcebans_status(Some(&clean)), SourceBansStatus::NoBans));
    assert_eq!(sourcebans_tooltip(&clean), None);
    let bad = Reputation {
        steamid: SteamID::from_u64(76561197960435530),
        has_bad_reputation: true,
        source_bans: vec![ban("skial.com", "Aimbot"), ban("dpg.tf", "Spinbot")],
    };
    match sourcebans_status(Some(&bad)) {
        SourceBansStatus::Bans(bans) => {
            assert_eq!(bans[0].source, "dpg.tf");
            assert_eq!(bans[1].source, "skial.com");
        }
        _ => panic!("bans expected"),
    }
    assert_eq!(
        sourcebans_tooltip(&bad).unwrap(),
        "SourceBans:\n- skial.com for Aimbot\n- dpg.tf for Spinbot"
    );
}

#[test]
fn placeholder_accounts() {
    let a = placeholder_account(76561197960435530, FetchedData::Reputation, 99);
    assert_eq!(a.steam_id, 76561197960435530);
    assert_eq!(a.name, "Unknown");
    assert_eq!(a.reputation_fetched, Some(99));
    assert_eq!(a.friends_fetched, None);
    assert_eq!(a.last_updated, 99);
    assert!(!a.public_profile);
    let f = placeholder_account(1, FetchedData::Friends, 5);
    assert_eq!(f.friends_fetched, Some(5));
    assert_eq!(f.reputation_fetched, None);
}

#[test]
fn game_names_round_trip() {
    for g in [
        Game::Tf2,
        Game::Cs2,
        Game::Csgo,
        Game::Dota2,
        Game::Pubg,
        Game::Apex,
        Game::Rust,
        Game::Gta5,
        Game::Valorant,
        Game::Other,
    ] {
        assert_eq!(Game::from_sql_text(&g.to_sql_text()), g);
    }
    assert_eq!(Game::Tf2.to_sql_text(), "TF2");
    assert_eq!(Game::from_sql_text("something else"), Game::Other);
    assert_eq!(Game::from_sql_text("tf2"), Game::Other);
}

#[test]
fn player_details_texts() {
    let p = player("Heavy", Team::Red);
    let id = SteamID::from_u64(76561197960435530);
    assert_eq!(player_window_title(Some(&p), id), "Player Details - Heavy");
    assert_eq!(player_window_title(None, id), "Player Details - 76561197960435530");
    assert_eq!(player_not_found_text(id), "Player with SteamID 76561197960435530 not found.");
    assert_eq!(player_heading(&p), "Heavy (3)");
    let (a, b) = steamid_labels(id);
    assert_eq!(a, "SteamID64: 76561197960435530");
    assert_eq!(b, "SteamID32: [U:1:169802]");
}

#[test]
fn friendship_lines_of_a_lobby() {
    let id = |n: u64| SteamID::from_u64(n);
    let me = id(10);
    let my_friends = vec![id(3), id(4)];
    let players = vec![
        (id(10), vec![id(3)]),
        (id(5), vec![id(3), id(6), id(10), id(2)]),
        (id(4), vec![id(3), id(5)]),
        (id(3), vec![id(5), id(4)]),
        (id(8), vec![id(7)]),
    ];
    let shown = vec![id(10), id(5), id(4), id(3), id(2)];
    let lines = friendship_lines(me, &my_friends, &players, &shown);
    assert_eq!(
        lines,
        vec![
            FriendshipLine { from: id(5), to: id(3), flipped: false },
            FriendshipLine { from: id(5), to: id(2), flipped: true },
        ]
    );
}

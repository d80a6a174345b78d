use std::cmp::Ordering;
use tf2monitor::scoreboard::{cmp_for_scoreboard, sort_for_scoreboard, Player, SortBy, Team};
use tf2monitor::colors::NamedColor;
use tf2monitor::scoreboard_layout::{
    filler_rows, lobby_status_line, scoreboard_layout, scoreboard_row, team_heading, team_totals, totals_line,
};
use tf2monitor::steamid::SteamID;

fn p(name: &str, team: Team, score: u32, kills: u32, deaths: u32) -> Player {
    Player {
        id: 7,
        steamid: SteamID::from_u64(76561197960265728),
        name: name.to_string(),
        team,
        score,
        kills,
        deaths,
        crit_kills: 0,
        crit_deaths: 0,
        pingms: 50,
        alive: true,
        reputation: None,
    }
}

fn names(players: &[Player]) -> Vec<String> {
    players.iter().map(|p| p.name.clone()).collect()
}

#[test]
fn team_comes_first() {
    let blu = p("b", Team::Blue, 0, 0, 9);
    let red = p("a", Team::Red, 99, 99, 0);
    let spec = p("s", Team::Spec, 0, 0, 0);
    let unknown = p("u", Team::Unknown, 0, 0, 0);
    assert_eq!(cmp_for_scoreboard(&blu, &red, SortBy::Score), Ordering::Less);
    assert_eq!(cmp_for_scoreboard(&red, &blu, SortBy::Kills), Ordering::Greater);
    assert_eq!(cmp_for_scoreboard(&red, &spec, SortBy::Score), Ordering::Less);
    assert_eq!(cmp_for_scoreboard(&unknown, &spec, SortBy::Score), Ordering::Greater);
}

#[test]
fn higher_score_or_kills_comes_first() {
    let a = p("a", Team::Red, 10, 2, 0);
    let b = p("b", Team::Red, 5, 8, 0);
    assert_eq!(cmp_for_scoreboard(&a, &b, SortBy::Score), Ordering::Less);
    assert_eq!(cmp_for_scoreboard(&a, &b, SortBy::Kills), Ordering::Greater);
    // Equal score: more kills first; equal kills: higher score first.
    let c = p("c", Team::Red, 10, 3, 0);
    assert_eq!(cmp_for_scoreboard(&c, &a, SortBy::Score), Ordering::Less);
    let d = p("d", Team::Red, 11, 2, 0);
    assert_eq!(cmp_for_scoreboard(&d, &a, SortBy::Kills), Ordering::Less);
}

#[test]
fn fewer_deaths_then_name() {
    let a = p("zed", Team::Blue, 1, 1, 1);
    let b = p("amy", Team::Blue, 1, 1, 2);
    assert_eq!(cmp_for_scoreboard(&a, &b, SortBy::Score), Ordering::Less);
    let c = p("amy", Team::Blue, 1, 1, 1);
    assert_eq!(cmp_for_scoreboard(&c, &a, SortBy::Score), Ordering::Less);
    assert_eq!(cmp_for_scoreboard(&a, &c, SortBy::Kills), Ordering::Greater);
    let d = p("amy", Team::Blue, 1, 1, 1);
    assert_eq!(cmp_for_scoreboard(&c, &d, SortBy::Score), Ordering::Equal);
}

#[test]
fn sort_orders_and_keeps_ties() {
    let mut first = p("same", Team::Red, 3, 3, 3);
    first.id = 1;
    let mut second = p("same", Team::Red, 3, 3, 3);
    second.id = 2;
    let players = vec![
        p("low", Team::Red, 1, 0, 0),
        first,
        p("blu", Team::Blue, 0, 0, 0),
        second,
        p("top", Team::Red, 9, 0, 0),
    ];
    let sorted = sort_for_scoreboard(players, SortBy::Score);
    assert_eq!(names(&sorted), vec!["blu", "top", "same", "same", "low"]);
    assert_eq!(sorted[2].id, 1);
    assert_eq!(sorted[3].id, 2);
}

#[test]
fn layout_of_two_teams_and_spectators() {
    let players = vec![
        p("r1", Team::Red, 1, 0, 0),
        p("s1", Team::Spec, 0, 0, 0),
        p("b1", Team::Blue, 5, 0, 0),
        p("r2", Team::Red, 7, 0, 0),
        p("s2", Team::Spec, 0, 0, 0),
    ];
    let layout = scoreboard_layout(players, SortBy::Score);
    let (c1, c2) = layout.columns.unwrap();
    assert_eq!(c1.title, "Blu");
    assert_eq!(names(&c1.players), vec!["b1"]);
    assert_eq!(c2.title, "Red");
    assert_eq!(names(&c2.players), vec!["r2", "r1"]);
    assert!(layout.unknown_team_line.is_none());
    assert_eq!(layout.spectators_line.unwrap(), "Spectators: s1, s2");
    assert!(!layout.separator_after_spectators);
}

#[test]
fn layout_of_players_of_no_team() {
    let mut players = Vec::new();
    for i in 0..26u32 {
        players.push(p(&format!("u{:02}", i), Team::Unknown, 100 - i, 0, 0));
    }
    players.push(p("watcher", Team::Spec, 0, 0, 0));
    let layout = scoreboard_layout(players, SortBy::Score);
    let (c1, c2) = layout.columns.unwrap();
    assert_eq!(c1.title, "Players 1-12");
    assert_eq!(c1.players.len(), 12);
    assert_eq!(c1.players[0].name, "u00");
    assert_eq!(c2.title, "Players 13-24");
    assert_eq!(c2.players.len(), 12);
    assert_eq!(c2.players[0].name, "u12");
    assert_eq!(layout.unknown_team_line.unwrap(), "Unknown team: u24, u25");
    assert_eq!(layout.spectators_line.unwrap(), "Spectators: watcher");
    assert!(layout.separator_after_spectators);
}

#[test]
fn layout_of_an_empty_lobby() {
    let layout = scoreboard_layout(vec![], SortBy::Kills);
    assert!(layout.columns.is_none());
    assert!(layout.unknown_team_line.is_none());
    assert!(layout.spectators_line.is_none());
    assert!(!layout.separator_after_spectators);
}

#[test]
fn heading_and_filler_rows() {
    assert_eq!(team_heading("Blu", 5), "Blu - 5 players");
    assert_eq!(team_heading("Red", 0), "Red - 0 players");
    assert_eq!(filler_rows(0), 12);
    assert_eq!(filler_rows(5), 7);
    assert_eq!(filler_rows(12), 0);
    assert_eq!(filler_rows(30), 0);
}

#[test]
fn totals_of_a_team() {
    let mut a = p("a", Team::Red, 0, 10, 4);
    a.crit_kills = 2;
    a.crit_deaths = 1;
    let mut b = p("b", Team::Red, 0, 3, 6);
    b.crit_kills = 1;
    let t = team_totals(&vec![a, b]);
    assert_eq!(t.kills, 13);
    assert_eq!(t.crit_kills, 3);
    assert_eq!(t.deaths, 10);
    assert_eq!(t.crit_deaths, 1);
    let t = team_totals(&vec![]);
    assert_eq!((t.kills, t.crit_kills, t.deaths, t.crit_deaths), (0, 0, 0, 0));
}

#[test]
fn row_texts() {
    let mut a = p("a", Team::Red, 0, 7, 12);
    a.crit_kills = 2;
    a.crit_deaths = 3;
    a.pingms = 48;
    let row = scoreboard_row(&a, true);
    assert_eq!(row.kills, "  7");
    assert_eq!(row.crit_kills.as_deref(), Some("(2)"));
    assert_eq!(row.deaths, "12");
    assert_eq!(row.crit_deaths.as_deref(), Some(" (3)"));
    assert_eq!(row.ping, "48");
    assert_eq!(row.name_color, NamedColor::White);
    a.alive = false;
    a.kills = 1234;
    let row = scoreboard_row(&a, false);
    assert_eq!(row.kills, "1234");
    assert!(row.crit_kills.is_none() && row.crit_deaths.is_none());
    assert_eq!(row.name_color, NamedColor::Gray);
    assert_eq!(format!("{:3}", 45), scoreboard_row(&p("b", Team::Red, 0, 45, 0), false).kills);
}

#[test]
fn totals_texts() {
    let mut a = p("a", Team::Red, 0, 10, 4);
    a.crit_kills = 2;
    a.crit_deaths = 1;
    let t = team_totals(&vec![a]);
    let line = totals_line(&t, true);
    assert_eq!(line.kills, "Kills: 10");
    assert_eq!(line.crit_kills.as_deref(), Some("(2)"));
    assert_eq!(line.deaths, "Deaths: 4");
    assert_eq!(line.crit_deaths.as_deref(), Some("(1)"));
    let line = totals_line(&t, false);
    assert!(line.crit_kills.is_none() && line.crit_deaths.is_none());
}

#[test]
fn status_line() {
    assert_eq!(lobby_status_line(24, 130), "Lobby: 24 players, 130 chat");
    assert_eq!(lobby_status_line(0, 0), "Lobby: 0 players, 0 chat");
}

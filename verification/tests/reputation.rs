use tf2monitor::reputation::{
    ban_records, should_fetch_reputation, PassAction, Reputation, ReputationCache, ReputationPass,
    NUM_REPUTATIONS_TO_FETCH, REPUTATION_MAX_AGE_SECONDS,
};
use tf2monitor::scoreboard::{Player, Team};
use tf2monitor::sourcebans::SourceBan;
use tf2monitor::steamid::SteamID;

fn player(id: u64, rated: bool) -> Player {
    Player {
        id: 1,
        steamid: SteamID::from_u64(id),
        name: format!("p{}", id),
        team: Team::Red,
        score: 0,
        kills: 0,
        deaths: 0,
        crit_kills: 0,
        crit_deaths: 0,
        pingms: 0,
        alive: true,
        reputation: if rated { Some(reputation(id, vec![])) } else { None },
    }
}

fn ban(id: u64, source: &str, length: &str, reason: &str) -> SourceBan {
    SourceBan {
        source: source.to_string(),
        steamid: SteamID::from_u64(id),
        when: "2024-01-01".to_string(),
        ban_length: length.to_string(),
        reason: reason.to_string(),
    }
}

fn reputation(id: u64, bans: Vec<SourceBan>) -> Reputation {
    Reputation {
        steamid: SteamID::from_u64(id),
        has_bad_reputation: !bans.is_empty(),
        source_bans: bans,
    }
}

#[test]
fn cache_gives_back_what_was_set() {
    let mut cache = ReputationCache::new();
    assert!(cache.get(SteamID::from_u64(76561197960435530)).is_none());
    cache.set(reputation(76561197960435530, vec![ban(76561197960435530, "a", "Permanent", "x")]));
    cache.set(reputation(76561197994359533, vec![]));
    let got = cache.get(SteamID::from_u64(76561197960435530)).unwrap();
    assert_eq!(got.steamid, SteamID::from_u64(76561197960435530));
    assert!(got.has_bad_reputation);
    assert_eq!(got.source_bans.len(), 1);
    let other = cache.get(SteamID::from_u64(76561197994359533)).unwrap();
    assert!(!other.has_bad_reputation);
    assert!(cache.get(SteamID::from_u64(1)).is_none());
}

#[test]
fn cache_set_replaces_a_reputation() {
    let mut cache = ReputationCache::new();
    cache.set(reputation(5, vec![]));
    cache.set(reputation(5, vec![ban(5, "a", "1 day", "r")]));
    assert!(cache.get(SteamID::from_u64(5)).unwrap().has_bad_reputation);
}

#[test]
fn reputation_is_fetched_after_more_than_seven_days() {
    assert_eq!(REPUTATION_MAX_AGE_SECONDS, 7 * 24 * 60 * 60);
    let now: i64 = 1_700_000_000;
    assert!(should_fetch_reputation(None, now));
    assert!(!should_fetch_reputation(Some(now), now));
    assert!(!should_fetch_reputation(Some(now - 604_799), now));
    assert!(!should_fetch_reputation(Some(now - 604_800), now));
    assert!(should_fetch_reputation(Some(now - 604_801), now));
    assert!(should_fetch_reputation(Some(now - 10 * 86_400), now));
    // A time of fetching in the future is "recent".
    assert!(!should_fetch_reputation(Some(now + 100), now));
}

#[test]
fn pass_looks_at_three_unrated_players() {
    assert_eq!(NUM_REPUTATIONS_TO_FETCH, 3);
    let players = vec![
        player(1, false),
        player(2, true),
        player(3, false),
        player(4, false),
        player(5, false),
    ];
    let cache = ReputationCache::new();
    let mut pass = ReputationPass::new(&players);
    // Nothing cached, nothing fetched: the first candidate is asked about.
    assert_eq!(pass.step(&cache), PassAction::CheckRecent(SteamID::from_u64(1)));
    // Fetched recently: no fetch, go on to the next one.
    assert_eq!(pass.checked(false), None);
    assert_eq!(pass.step(&cache), PassAction::CheckRecent(SteamID::from_u64(3)));
    assert_eq!(pass.checked(true), Some(SteamID::from_u64(3)));
    // One was fetched: player 4 is skipped, player 5 is not a candidate.
    assert_eq!(pass.step(&cache), PassAction::Done);
    assert_eq!(pass.step(&cache), PassAction::Done);
    assert_eq!(pass.checked(true), None);
}

#[test]
fn pass_sends_cached_reputations() {
    let players = vec![player(1, false), player(2, false), player(3, false)];
    let mut cache = ReputationCache::new();
    cache.set(reputation(1, vec![]));
    cache.set(reputation(3, vec![]));
    let mut pass = ReputationPass::new(&players);
    assert_eq!(pass.step(&cache), PassAction::SendCached(SteamID::from_u64(1)));
    assert_eq!(pass.step(&cache), PassAction::CheckRecent(SteamID::from_u64(2)));
    assert_eq!(pass.checked(true), Some(SteamID::from_u64(2)));
    // After the fetch a cached reputation is still sent.
    assert_eq!(pass.step(&cache), PassAction::SendCached(SteamID::from_u64(3)));
    assert_eq!(pass.step(&cache), PassAction::Done);
}

#[test]
fn pass_over_rated_lobby_is_done_at_once() {
    let players = vec![player(1, true), player(2, true)];
    let cache = ReputationCache::new();
    let mut pass = ReputationPass::new(&players);
    assert_eq!(pass.step(&cache), PassAction::Done);
    let empty: Vec<Player> = vec![];
    let mut pass = ReputationPass::new(&empty);
    assert_eq!(pass.step(&cache), PassAction::Done);
}

#[test]
fn at_most_one_fetch_per_pass() {
    let players = vec![player(1, false), player(2, false), player(3, false)];
    let cache = ReputationCache::new();
    let mut pass = ReputationPass::new(&players);
    let mut fetches = 0;
    loop {
        match pass.step(&cache) {
            PassAction::Done => break,
            PassAction::SendCached(_) => {}
            PassAction::CheckRecent(_) => {
                if pass.checked(true).is_some() {
                    fetches += 1;
                }
            }
        }
    }
    assert_eq!(fetches, 1);
}

#[test]
fn ban_records_of_a_reputation() {
    let rep = reputation(
        76561198398458549,
        vec![
            ban(76561198398458549, "flux.tf", "Permanent", "Cheating"),
            ban(76561198398458549, "dpg.tf", "2 weeks", "Toxic"),
            ban(76561198398458549, "skial.com", "Never expires", "Aimbot"),
        ],
    );
    let records = ban_records(&rep, 1234);
    assert_eq!(records.len(), 3);
    assert_eq!(records[0].steam_id, 76561198398458549);
    assert_eq!(records[0].source, "flux.tf");
    assert_eq!(records[0].ban_type, "sourcebans");
    assert_eq!(records[0].reason.as_deref(), Some("Cheating"));
    assert_eq!(records[0].created_date, 1234);
    assert_eq!(records[0].expires_date, None);
    assert!(records[0].permanent);
    assert!(!records[1].permanent);
    assert!(records[2].permanent);
    assert!(ban_records(&reputation(1, vec![]), 5).is_empty());
}

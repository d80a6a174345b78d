use tf2monitor::steamid::{SteamID, MIN_STEAMID64};

#[test]
fn test_from_steamdid32() {
    assert_eq!(
        SteamID::from_steam_id32("[U:1:169802]"),
        SteamID::from_u64(76561197960435530)
    );
    assert_eq!(
        SteamID::from_steam_id32("[U:1:34093805]"),
        SteamID::from_u64(76561197994359533)
    );
    assert_eq!(
        SteamID::from_steam_id32("[U:1:1218982957]"),
        SteamID::from_u64(76561199179248685)
    );
}

#[test]
fn test_to_steamdid32() {
    assert_eq!(
        SteamID::from_steam_id32("[U:1:169802]").to_steam_id32(),
        "[U:1:169802]".to_string()
    );
    assert_eq!(
        SteamID::from_steam_id32("[U:1:34093805]").to_steam_id32(),
        "[U:1:34093805]".to_string()
    );
    assert_eq!(
        SteamID::from_steam_id32("[U:1:1218982957]").to_steam_id32(),
        "[U:1:1218982957]".to_string()
    );
}

#[test]
fn test_to_steamd_id() {
    assert_eq!(
        SteamID::from_u64(76561198398458549).to_steam_id(),
        "STEAM_0:1:219096410".to_string()
    );
}

#[test]
fn from_steam_id32_bare_number() {
    // The shorter form used in some Steam pages.
    assert_eq!(
        SteamID::from_steam_id32("169802"),
        SteamID::from_u64(76561197960435530)
    );
}

#[test]
fn try_from_steam_id32_rejects_malformed() {
    assert_eq!(SteamID::try_from_steam_id32("[U:1:abc]"), None);
    assert_eq!(SteamID::try_from_steam_id32(""), None);
    assert_eq!(SteamID::try_from_steam_id32("[U:1:]"), None);
    // Too large to be added to the first account number.
    assert_eq!(SteamID::try_from_steam_id32("18446744073709551615"), None);
    assert_eq!(
        SteamID::try_from_steam_id32("+5"),
        Some(SteamID::from_u64(MIN_STEAMID64 + 5))
    );
}

#[test]
fn try_from_steam_id32_strips_repeated_brackets() {
    // `trim_start_matches`/`trim_end_matches` remove every repetition.
    assert_eq!(
        SteamID::try_from_steam_id32("[U:1:[U:1:7]]"),
        Some(SteamID::from_u64(MIN_STEAMID64 + 7))
    );
}

#[test]
fn steam_id32_roundtrip_on_edge_accounts() {
    let first = SteamID::from_u64(MIN_STEAMID64);
    assert_eq!(first.to_steam_id32(), "[U:1:0]");
    assert_eq!(SteamID::from_steam_id32(&first.to_steam_id32()), first);
    let last = SteamID::from_u64(u64::MAX);
    assert_eq!(SteamID::from_steam_id32(&last.to_steam_id32()), last);
}

#[test]
fn to_steam_id_even_account() {
    assert_eq!(
        SteamID::from_u64(MIN_STEAMID64 + 10).to_steam_id(),
        "STEAM_0:0:5".to_string()
    );
}

#[test]
fn from_u64_string_parses_decimal() {
    assert_eq!(
        SteamID::from_u64_string(&"76561198398458549".to_string()),
        Some(SteamID::from_u64(76561198398458549))
    );
    assert_eq!(SteamID::from_u64_string(&"+12".to_string()), Some(SteamID::from_u64(12)));
    assert_eq!(SteamID::from_u64_string(&" 12".to_string()), None);
    assert_eq!(SteamID::from_u64_string(&"-12".to_string()), None);
    assert_eq!(SteamID::from_u64_string(&"18446744073709551616".to_string()), None);
    assert_eq!(
        SteamID::from_u64_string(&"18446744073709551615".to_string()),
        Some(SteamID::from_u64(u64::MAX))
    );
}

#[test]
fn validity_and_u64() {
    assert!(SteamID::from_u64(MIN_STEAMID64).is_valid());
    assert!(!SteamID::from_u64(MIN_STEAMID64 - 1).is_valid());
    assert_eq!(SteamID::from_u64(42).to_u64(), 42);
    assert_eq!(SteamID::default().to_u64(), 0);
}

#[test]
fn profile_urls() {
    let id = SteamID::from_u64(76561197999984396);
    assert_eq!(id.steam_history_url(), "https://steamhistory.net/id/76561197999984396");
    assert_eq!(id.steam_community_url(), "https://steamcommunity.com/profiles/76561197999984396");
    assert_eq!(id.steam_rep_url(), "https://steamrep.com/search?q=76561197999984396");
    assert_eq!(id.steam_id_url(), "https://steamid.uk/profile/76561197999984396");
    assert_eq!(id.rep_tf_url(), "https://rep.tf/76561197999984396");
    assert_eq!(SteamID::from_u64(0).rep_tf_url(), "https://rep.tf/0");
}

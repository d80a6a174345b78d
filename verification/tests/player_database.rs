use std::collections::HashMap;
use tf2monitor::player_database::{
    account_matches_filters, filter_accounts, format_flags, group_flags_by_steamid,
    mark_editor_states, marks_to_show, party_notification_states, player_database_filters,
    set_party_notification, showing_line, sort_strings, PlayerAttribute,
};
use tf2monitor::records::{Account, PlayerFlag};

fn flag(id: i64, t: &str) -> PlayerFlag {
    PlayerFlag {
        steam_id: id,
        flag_type: t.to_string(),
        source: "user".to_string(),
        first_seen: 1,
        last_seen: 2,
        notified: false,
    }
}

fn account(id: i64, name: &str) -> Account {
    Account { steam_id: id, name: name.to_string() }
}

#[test]
fn attribute_names_and_filters() {
    assert_eq!(PlayerAttribute::Cheater.name(), "Cheater");
    assert_eq!(PlayerAttribute::Exploiter.name(), "Exploiter");
    assert_eq!(
        player_database_filters(),
        vec![
            PlayerAttribute::Cheater,
            PlayerAttribute::Bot,
            PlayerAttribute::Suspicious,
            PlayerAttribute::Toxic,
            PlayerAttribute::Exploiter,
            PlayerAttribute::Cool,
        ]
    );
}

#[test]
fn flags_grouped_by_account() {
    let flags = vec![flag(1, "Cheater"), flag(2, "Bot"), flag(1, "Toxic"), flag(1, "Cheater")];
    let grouped = group_flags_by_steamid(&flags);
    assert_eq!(grouped.len(), 2);
    let mut one = grouped[&1].clone();
    one.sort();
    assert_eq!(one, vec!["Cheater".to_string(), "Toxic".to_string()]);
    assert_eq!(grouped[&2], vec!["Bot".to_string()]);
    assert!(group_flags_by_steamid(&vec![]).is_empty());
}

#[test]
fn flags_written_out() {
    assert_eq!(format_flags(None), "-");
    assert_eq!(format_flags(Some(&vec![])), "-");
    let v = vec!["Toxic".to_string(), "Cheater".to_string(), "Bot".to_string()];
    assert_eq!(format_flags(Some(&v)), "Bot, Cheater, Toxic");
    assert_eq!(
        sort_strings(vec!["b".to_string(), "B".to_string(), "a".to_string()]),
        vec!["B".to_string(), "a".to_string(), "b".to_string()]
    );
}

#[test]
fn search_and_filters() {
    let mut groups: HashMap<i64, Vec<String>> = HashMap::new();
    groups.insert(76561197960435530, vec!["Cheater".to_string()]);
    let a = account(76561197960435530, "SneakyPete");
    let b = account(76561197994359533, "honest");
    let none: Vec<PlayerAttribute> = vec![];
    assert!(account_matches_filters(&a, &groups, "", &none));
    assert!(account_matches_filters(&a, &groups, "  sneaky ", &none));
    assert!(account_matches_filters(&b, &groups, "994359", &none));
    assert!(!account_matches_filters(&b, &groups, "pete", &none));
    let cheaters = vec![PlayerAttribute::Cheater];
    assert!(account_matches_filters(&a, &groups, "", &cheaters));
    assert!(!account_matches_filters(&b, &groups, "", &cheaters));
    let bots = vec![PlayerAttribute::Bot, PlayerAttribute::Toxic];
    assert!(!account_matches_filters(&a, &groups, "", &bots));
    let accounts = vec![a, b, account(3, "PETER")];
    assert_eq!(filter_accounts(&accounts, &groups, "pete", &none), vec![0, 2]);
    assert_eq!(filter_accounts(&accounts, &groups, "", &cheaters), vec![0]);
    assert_eq!(filter_accounts(&accounts, &groups, "", &none), vec![0, 1, 2]);
}

#[test]
fn party_notifications_switch() {
    let mut list = vec![PlayerAttribute::Cheater, PlayerAttribute::Bot];
    set_party_notification(&mut list, PlayerAttribute::Cheater, true);
    assert_eq!(list, vec![PlayerAttribute::Bot, PlayerAttribute::Cheater]);
    set_party_notification(&mut list, PlayerAttribute::Bot, false);
    assert_eq!(list, vec![PlayerAttribute::Cheater]);
    set_party_notification(&mut list, PlayerAttribute::Toxic, false);
    assert_eq!(list, vec![PlayerAttribute::Cheater]);
    set_party_notification(&mut list, PlayerAttribute::Toxic, true);
    assert_eq!(list, vec![PlayerAttribute::Cheater, PlayerAttribute::Toxic]);
    // Switching the same way again changes nothing.
    set_party_notification(&mut list, PlayerAttribute::Toxic, true);
    assert_eq!(list, vec![PlayerAttribute::Cheater, PlayerAttribute::Toxic]);
    let mut dup = vec![PlayerAttribute::Bot, PlayerAttribute::Bot, PlayerAttribute::Cool];
    set_party_notification(&mut dup, PlayerAttribute::Bot, false);
    assert_eq!(dup, vec![PlayerAttribute::Cool]);
}

#[test]
fn badges_and_editor_of_marks() {
    let marks = vec![PlayerAttribute::Toxic, PlayerAttribute::Cool, PlayerAttribute::Toxic];
    assert_eq!(marks_to_show(&marks), vec![PlayerAttribute::Cool, PlayerAttribute::Toxic]);
    assert!(marks_to_show(&vec![]).is_empty());
    let states = mark_editor_states(Some(&marks));
    assert_eq!(states.len(), 6);
    assert_eq!(states[0], (PlayerAttribute::Cool, true));
    assert_eq!(states[1], (PlayerAttribute::Cheater, false));
    assert_eq!(states[4], (PlayerAttribute::Toxic, true));
    assert_eq!(states[5], (PlayerAttribute::Exploiter, false));
    assert!(mark_editor_states(None).iter().all(|(_, on)| !on));
    let party = party_notification_states(&vec![PlayerAttribute::Bot]);
    assert_eq!(
        party,
        vec![
            (PlayerAttribute::Cheater, false),
            (PlayerAttribute::Bot, true),
            (PlayerAttribute::Suspicious, false),
            (PlayerAttribute::Toxic, false),
            (PlayerAttribute::Exploiter, false),
        ]
    );
}

#[test]
fn showing_counts() {
    assert_eq!(showing_line(3, 120), "Showing 3 of 120 players");
    assert_eq!(showing_line(0, 0), "Showing 0 of 0 players");
}

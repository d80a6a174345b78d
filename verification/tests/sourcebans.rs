use tf2monitor::reputation::{get_reputation, new_ban_record, ban_source_record};
use tf2monitor::sourcebans::{
    get_source_bans, get_sources, parse_source_ban_one_table, parse_source_ban_one_ul,
    parse_source_ban_page, parse_source_ban_table, parse_source_ban_ul, parse_table_entries,
    parse_ul_entries, source_ban_url, MalformedPage,
    SourceBanParser, SourceBanSource,
};
use tf2monitor::steamid::SteamID;

const UL_PAGE: &str = r#"<html><body><div class="layout_box">
<ul class="ban_list_detal">
  <li><span><i class="fas fa-user"></i> Player</span><span>Lubbeek</span></li>
  <li><span>Steam3 ID</span><span> [U:1:438192821] </span></li>
  <li><span>Invoked on</span><span>2023-01-01 12:00</span></li>
  <li><span>Ban length</span><span>Permanent</span></li>
  <li><span>Reason</span><span>Cheating</span></li>
</ul>
<ul class="ban_list_detal">
  <li><span>Steam3 ID</span><span>[U:1:169802]</span></li>
  <li><span>Invoked on</span><span>2022-05-05</span></li>
  <li><span>Reason</span><span>Spam</span></li>
</ul>
<ul class="ban_list_detal">
  <li><span>Steam3 ID</span><span>[U:1:34093805]</span></li>
  <li><span>Invoked on</span><span>2021-02-03</span></li>
  <li><span>Ban length</span><span>2 weeks</span></li>
  <li><span>Reason</span><span>Toxic</span></li>
  <li><span>Reason</span><span>Toxic chat</span></li>
</ul>
</div></body></html>"#;

const TABLE_PAGE: &str = r#"<html><body><div id="banlist"><table class="listtable"><tr><td>
<table class="listtable">
  <tr><td class="listtable_1">Player</td><td class="listtable_1">Someone</td></tr>
  <tr><td class="listtable_1">Steam3 ID</td><td class="listtable_1"><a href="http://steamcommunity.com/profiles/[U:1:438192821]" target="_blank">[U:1:438192821]</a></td></tr>
  <tr><td class="listtable_1">Invoked on</td><td class="listtable_1">2024-03-04 10:00</td></tr>
  <tr><td class="listtable_1">Banlength</td><td class="listtable_1">Permanent</td></tr>
  <tr><td class="listtable_1">Reason</td><td class="listtable_1">Aimbot</td></tr>
</table>
</td></tr></table></div></body></html>"#;

fn ul_source() -> SourceBanSource {
    SourceBanSource::new("Test UL", "https://example.com/?q={}", SourceBanParser::Ul)
}

fn table_source() -> SourceBanSource {
    SourceBanSource::new("Test Table", "https://example.com/?q={}", SourceBanParser::Table)
}

#[test]
fn sources_are_the_five_sites() {
    let sources = get_sources();
    assert_eq!(sources.len(), 5);
    assert_eq!(sources[0].name, "UGC-Gaming.net");
    assert!(matches!(sources[0].parser, SourceBanParser::Ul));
    assert_eq!(sources[2].name, "flux.tf");
    assert!(matches!(sources[2].parser, SourceBanParser::Table));
    assert_eq!(
        sources[4].url,
        "https://www.skial.com/sourcebans/index.php?p=banlist&advSearch={}&advType=steamid"
    );
}

#[test]
fn search_url_holds_the_steam_id() {
    let sources = get_sources();
    let url = source_ban_url(&sources[0], SteamID::from_u64(76561198398458549));
    assert_eq!(
        url,
        "https://sb.ugc-gaming.net/index.php?p=banlist&advSearch=STEAM_0:1:219096410&advType=steamid"
    );
}

#[test]
fn ul_page_gives_complete_entries() {
    let bans = parse_source_ban_ul(UL_PAGE, &ul_source()).unwrap().unwrap();
    // The second entry lacks a ban length and is dropped.
    assert_eq!(bans.len(), 2);
    assert_eq!(bans[0].source, "Test UL");
    assert_eq!(bans[0].steamid, SteamID::from_steam_id32("[U:1:438192821]"));
    assert_eq!(bans[0].when, "2023-01-01 12:00");
    assert_eq!(bans[0].ban_length, "Permanent");
    assert_eq!(bans[0].reason, "Cheating");
    // The last value of a label is kept.
    assert_eq!(bans[1].reason, "Toxic chat");
    assert_eq!(bans[1].ban_length, "2 weeks");
}

#[test]
fn ul_page_without_marker_gives_nothing() {
    assert!(parse_source_ban_ul("<html><body>No bans</body></html>", &ul_source()).unwrap().is_none());
}

#[test]
fn ul_page_with_marker_but_no_entries_gives_no_bans() {
    let bans = parse_source_ban_ul("<p>ban_list_detal</p>", &ul_source()).unwrap().unwrap();
    assert!(bans.is_empty());
}

#[test]
fn ul_page_with_malformed_steam_id_is_malformed() {
    let page = r#"<ul class="ban_list_detal"><li><span>Steam3 ID</span><span>[U:1:xyz]</span></li></ul>"#;
    assert_eq!(parse_source_ban_ul(page, &ul_source()).unwrap_err(), MalformedPage);
}

#[test]
fn table_page_gives_entries() {
    let bans = parse_source_ban_table(TABLE_PAGE, &table_source()).unwrap().unwrap();
    assert_eq!(bans.len(), 1);
    assert_eq!(bans[0].source, "Test Table");
    assert_eq!(bans[0].steamid, SteamID::from_steam_id32("[U:1:438192821]"));
    assert_eq!(bans[0].when, "2024-03-04 10:00");
    assert_eq!(bans[0].ban_length, "Permanent");
    assert_eq!(bans[0].reason, "Aimbot");
}

#[test]
fn table_page_without_banlist_gives_nothing() {
    assert!(parse_source_ban_table("<html><body><table class=\"listtable\"></table></body></html>", &table_source()).unwrap().is_none());
}

#[test]
fn table_entry_with_unlabelled_row_is_dropped() {
    let page = r#"<div id="banlist"><table class="listtable"><tr><td>
<table class="listtable">
  <tr><td>Steam3 ID</td><td><a>[U:1:1]</a></td></tr>
  <tr><td>Invoked on</td><td>now</td></tr>
  <tr><td>Banlength</td><td>1 day</td></tr>
  <tr><td>Reason</td><td>x</td></tr>
  <tr></tr>
</table></td></tr></table></div>"#;
    let bans = parse_source_ban_table(page, &table_source()).unwrap().unwrap();
    assert!(bans.is_empty());
}

#[test]
fn one_ul_entry_from_item_texts() {
    let items: Vec<Vec<String>> = vec![
        vec!["Steam3 ID".to_string(), "  ".to_string(), "[U:1:5]".to_string()],
        vec!["Invoked on".to_string(), "today".to_string()],
        vec!["Ban length".to_string(), "Permanent".to_string()],
        vec!["Reason".to_string()],
        vec!["Reason".to_string(), " Cheat ".to_string()],
    ];
    let ban = parse_source_ban_one_ul(&ul_source(), &items).unwrap();
    assert_eq!(ban.steamid.to_u64(), 76561197960265733);
    assert_eq!(ban.reason, "Cheat");
    let incomplete: Vec<Vec<String>> = vec![vec!["Reason".to_string(), "x".to_string()]];
    assert!(parse_source_ban_one_ul(&ul_source(), &incomplete).is_none());
}

#[test]
fn one_table_entry_from_cells() {
    let cell = |texts: &[&str], links: &[&[&str]]| {
        (
            texts.iter().map(|s| s.to_string()).collect::<Vec<String>>(),
            links
                .iter()
                .map(|l| l.iter().map(|s| s.to_string()).collect::<Vec<String>>())
                .collect::<Vec<Vec<String>>>(),
        )
    };
    let rows = vec![
        vec![cell(&["Steam3 ID"], &[]), cell(&["\n "], &[&["[U:1:9]"]])],
        vec![cell(&["Invoked on"], &[]), cell(&["yesterday"], &[])],
        vec![cell(&["Banlength"], &[]), cell(&["Never"], &[])],
        vec![cell(&["Reason"], &[]), cell(&["Wallhack"], &[])],
    ];
    let ban = parse_source_ban_one_table(&table_source(), &rows).unwrap();
    assert_eq!(ban.steamid.to_u64(), 76561197960265737);
    assert_eq!(ban.ban_length, "Never");
    let mut missing_value = rows.clone();
    missing_value[1] = vec![cell(&["Invoked on"], &[])];
    assert!(parse_source_ban_one_table(&table_source(), &missing_value).is_none());
}

#[test]
fn page_dispatches_on_the_parser() {
    assert_eq!(parse_source_ban_page(UL_PAGE, &ul_source()).unwrap().unwrap().len(), 2);
    assert_eq!(parse_source_ban_page(TABLE_PAGE, &table_source()).unwrap().unwrap().len(), 1);
    assert!(parse_source_ban_page(TABLE_PAGE, &ul_source()).unwrap().is_none());
}

#[test]
fn fetch_result_counts_readable_pages() {
    let sources = vec![ul_source(), table_source(), ul_source()];
    let pages = vec![Some(UL_PAGE.to_string()), None, Some("<p>nothing</p>".to_string())];
    let result = get_source_bans(&sources, &pages).unwrap();
    assert_eq!(result.successful_sources, 1);
    assert_eq!(result.bans.len(), 2);
    let pages = vec![Some(UL_PAGE.to_string()), Some(TABLE_PAGE.to_string())];
    let result = get_source_bans(&sources, &pages).unwrap();
    assert_eq!(result.successful_sources, 2);
    assert_eq!(result.bans.len(), 3);
    assert_eq!(result.bans[2].source, "Test Table");
}

#[test]
fn reputation_needs_one_readable_source() {
    let id = SteamID::from_u64(76561198398458549);
    assert!(get_reputation(id, &vec![None, None, None, None, None]).unwrap().is_none());
    let none_found = get_reputation(id, &vec![Some("<p>ban_list_detal</p>".to_string())]).unwrap().unwrap();
    assert!(!none_found.has_bad_reputation);
    assert!(none_found.source_bans.is_empty());
    let found = get_reputation(id, &vec![Some(UL_PAGE.to_string())]).unwrap().unwrap();
    assert!(found.has_bad_reputation);
    assert_eq!(found.steamid, id);
    assert_eq!(found.source_bans.len(), 2);
    assert_eq!(found.source_bans[0].source, "UGC-Gaming.net");
}

#[test]
fn ban_record_tells_permanent_bans() {
    let bans = parse_source_ban_ul(UL_PAGE, &ul_source()).unwrap().unwrap();
    let record = new_ban_record(&bans[0], 1000);
    assert!(record.permanent);
    assert_eq!(record.steam_id, 76561198398458549);
    assert_eq!(record.ban_type, "sourcebans");
    assert_eq!(record.reason.as_deref(), Some("Cheating"));
    assert_eq!(record.created_date, 1000);
    assert!(record.expires_date.is_none());
    // Upper case is lowered before the search.
    let mut shouting = bans[1].clone();
    shouting.ban_length = "NEVER EXPIRES".to_string();
    assert!(new_ban_record(&shouting, 0).permanent);
    assert!(!new_ban_record(&bans[1], 0).permanent);
}

#[test]
fn ban_source_record_names_the_parser() {
    let sources = get_sources();
    let ul = ban_source_record(&sources[0]);
    assert_eq!(ul.parser, "Ul");
    assert!(ul.active);
    assert!(ul.last_checked.is_none());
    assert_eq!(ban_source_record(&sources[3]).parser, "Table");
    assert_eq!(ban_source_record(&sources[3]).name, "dpg.tf");
}

#[test]
fn malformed_table_page_and_fetch() {
    let page = r#"<div id="banlist"><table class="listtable"><tr><td>
<table class="listtable">
  <tr><td>Steam3 ID</td><td><a>[U:1:oops]</a></td></tr>
</table></td></tr></table></div>"#;
    assert_eq!(parse_source_ban_table(page, &table_source()).unwrap_err(), MalformedPage);
    let sources = vec![ul_source(), table_source()];
    let pages = vec![Some(UL_PAGE.to_string()), Some(page.to_string())];
    assert_eq!(get_source_bans(&sources, &pages).err(), Some(MalformedPage));
    let id = SteamID::from_u64(76561198398458549);
    let bad = r#"<ul class="ban_list_detal"><li><span>Steam3 ID</span><span>[U:1:xyz]</span></li></ul>"#;
    assert!(get_reputation(id, &vec![Some(bad.to_string())]).is_err());
}

#[test]
fn entries_read_from_given_values() {
    let t = |v: &[&str]| v.iter().map(|s| s.to_string()).collect::<Vec<String>>();
    let good = vec![t(&["Steam3 ID", "[U:1:5]"]), t(&["Invoked on", "today"]), t(&["Ban length", "1 day"]), t(&["Reason", "x"])];
    let incomplete = vec![t(&["Reason", "y"])];
    let bans = parse_ul_entries(&ul_source(), &vec![incomplete.clone(), good.clone()]).unwrap();
    assert_eq!(bans.len(), 1);
    assert_eq!(bans[0].steamid.to_u64(), 76561197960265733);
    let bad = vec![t(&["Steam3 ID", "[U:1:-1]"])];
    assert_eq!(parse_ul_entries(&ul_source(), &vec![good, bad]).unwrap_err(), MalformedPage);
    assert!(parse_ul_entries(&ul_source(), &vec![]).unwrap().is_empty());

    let cell = |texts: &[&str], links: &[&[&str]]| {
        (t(texts), links.iter().map(|l| t(*l)).collect::<Vec<Vec<String>>>())
    };
    let entry = vec![
        vec![cell(&["Steam3 ID"], &[]), cell(&[""], &[&["[U:1:9]"]])],
        vec![cell(&["Invoked on"], &[]), cell(&["now"], &[])],
        vec![cell(&["Banlength"], &[]), cell(&["Permanent"], &[])],
        vec![cell(&["Reason"], &[]), cell(&["Aimbot"], &[])],
    ];
    let bans = parse_table_entries(&table_source(), &vec![entry.clone()]).unwrap();
    assert_eq!(bans[0].reason, "Aimbot");
    let bad_entry = vec![vec![cell(&["Steam3 ID"], &[]), cell(&[""], &[&["nope"]])]];
    assert_eq!(parse_table_entries(&table_source(), &vec![entry, bad_entry]).unwrap_err(), MalformedPage);
}

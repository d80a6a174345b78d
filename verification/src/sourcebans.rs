//! SourceBans ban lists: the sources, the address of a player's page on each,
//! and the reading of the ban entries out of a fetched page.
use crate::steamid::{parse_steam_id32, steam_id_text, SteamID, MIN_STEAMID64};
use crate::text::{
    chars_eq, chars_of, contains, lemma_chars_deep_view, contains_exec, replace_all, replace_chars, str_to_string,
    string_of, trim, trim_str,
};
use scraper::{ElementRef, Html, Selector};
use vstd::prelude::*;

verus! {

broadcast use lemma_chars_deep_view;

/// How the ban list of a source is laid out.
#[derive(Debug, Clone, Copy, PartialEq, Eq, Structural)]
pub enum SourceBanParser {
    // Data is stored in a <ul> element
    Ul,
    // Data is stored in a <table> element
    Table,
}

#[derive(Debug, Clone)]
pub struct SourceBanSource {
    pub name: String,
    pub url: String,
    pub parser: SourceBanParser,
}

/// A source as plain values.
pub struct SourceView {
    pub name: Seq<char>,
    pub url: Seq<char>,
    pub parser: SourceBanParser,
}

impl View for SourceBanSource {
    type V = SourceView;

    open spec fn view(&self) -> SourceView {
        SourceView { name: self.name@, url: self.url@, parser: self.parser }
    }
}

impl SourceBanSource {
    pub fn new(name: &str, url: &str, parser: SourceBanParser) -> (r: SourceBanSource)
        ensures
            r.name@ == name@,
            r.url@ == url@,
            r.parser == parser,
    {
        SourceBanSource { name: str_to_string(name), url: str_to_string(url), parser }
    }
}

#[derive(Debug, Clone)]
pub struct SourceBan {
    pub source: String,
    pub steamid: SteamID,
    pub when: String,
    pub ban_length: String,
    pub reason: String,
}

/// A ban entry as plain values.
pub struct BanView {
    pub source: Seq<char>,
    pub steamid: u64,
    pub when: Seq<char>,
    pub ban_length: Seq<char>,
    pub reason: Seq<char>,
}

impl View for SourceBan {
    type V = BanView;

    open spec fn view(&self) -> BanView {
        BanView {
            source: self.source@,
            steamid: self.steamid@,
            when: self.when@,
            ban_length: self.ban_length@,
            reason: self.reason@,
        }
    }
}

pub open spec fn bans_view(bans: Seq<SourceBan>) -> Seq<BanView> {
    bans.map_values(|b: SourceBan| b@)
}

pub open spec fn ban_opt_view(ban: Option<SourceBan>) -> Option<BanView> {
    match ban {
        Some(b) => Some(b@),
        None => None,
    }
}

/// The bans found for a player, and how many sources could be read.
pub struct SourceBanFetchResult {
    pub bans: Vec<SourceBan>,
    pub successful_sources: usize,
}

// ---------------------------------------------------------------------------
// Sources
// ---------------------------------------------------------------------------

// Test subject:
// - Multiple bans: https://steamhistory.net/id/76561198398458549
// - Multiple bans: https://steamhistory.net/id/76561199163606348
//
pub open spec fn source_view(name: Seq<char>, url: Seq<char>, parser: SourceBanParser) -> SourceView {
    SourceView { name, url, parser }
}

/// The SourceBans sites that are searched, each with the address of its
/// search page (`{}` stands for the player's `STEAM_0:y:z` id).
pub open spec fn sources_spec() -> Seq<SourceView> {
    seq![
        source_view(
            "UGC-Gaming.net"@,
            "https://sb.ugc-gaming.net/index.php?p=banlist&advSearch={}&advType=steamid"@,
            SourceBanParser::Ul,
        ),
        source_view(
            "blackwonder.tf"@,
            "https://bans.blackwonder.tf/index.php?p=banlist&advSearch={}&advType=steamid"@,
            SourceBanParser::Ul,
        ),
        source_view(
            "flux.tf"@,
            "https://bans.flux.tf/index.php?p=banlist&advSearch={}&advType=steamid"@,
            SourceBanParser::Table,
        ),
        source_view(
            "dpg.tf"@,
            "https://bans.dpg.tf/index.php?p=banlist&advSearch={}&advType=steamid"@,
            SourceBanParser::Table,
        ),
        source_view(
            "skial.com"@,
            "https://www.skial.com/sourcebans/index.php?p=banlist&advSearch={}&advType=steamid"@,
            SourceBanParser::Table,
        ),
    ]
}

pub open spec fn sources_view(sources: Seq<SourceBanSource>) -> Seq<SourceView> {
    sources.map_values(|s: SourceBanSource| s@)
}

/// The SourceBans sites that are searched.
pub fn get_sources() -> (r: Vec<SourceBanSource>)
    ensures
        sources_view(r@) == sources_spec(),
{
    // More sources are listed at https://steamhistory.net/sources; the ones
    // behind CloudFlare (panda-community.com) cannot be read.
    let mut r = Vec::new();
    r.push(
        SourceBanSource::new(
            "UGC-Gaming.net",
            "https://sb.ugc-gaming.net/index.php?p=banlist&advSearch={}&advType=steamid",
            SourceBanParser::Ul,
        ),
    );
    r.push(
        SourceBanSource::new(
            "blackwonder.tf",
            "https://bans.blackwonder.tf/index.php?p=banlist&advSearch={}&advType=steamid",
            SourceBanParser::Ul,
        ),
    );
    r.push(
        SourceBanSource::new(
            "flux.tf",
            "https://bans.flux.tf/index.php?p=banlist&advSearch={}&advType=steamid",
            SourceBanParser::Table,
        ),
    );
    r.push(
        SourceBanSource::new(
            "dpg.tf",
            "https://bans.dpg.tf/index.php?p=banlist&advSearch={}&advType=steamid",
            SourceBanParser::Table,
        ),
    );
    r.push(
        SourceBanSource::new(
            "skial.com",
            "https://www.skial.com/sourcebans/index.php?p=banlist&advSearch={}&advType=steamid",
            SourceBanParser::Table,
        ),
    );
    assert(sources_view(r@) =~= sources_spec());
    r
}

pub open spec fn placeholder() -> Seq<char> {
    seq!['{', '}']
}

/// The search page of `source` for a player: every `{}` of the source's
/// address replaced by the player's `STEAM_0:y:z` id.
pub open spec fn source_ban_url_of(url: Seq<char>, steamid: u64) -> Seq<char> {
    replace_all(url, placeholder(), steam_id_text(steamid))
}

pub fn source_ban_url(source: &SourceBanSource, steamid: SteamID) -> (r: String)
    requires
        steamid@ >= MIN_STEAMID64,
    ensures
        r@ == source_ban_url_of(source.url@, steamid@),
{
    let url = chars_of(source.url.as_str());
    let id = chars_of(steamid.to_steam_id().as_str());
    let pat = vec!['{', '}'];
    assert(pat@ == placeholder());
    string_of(&replace_chars(&url, &pat, &id))
}

// ---------------------------------------------------------------------------
// Reading a page
// ---------------------------------------------------------------------------

/// The text nodes of an HTML page grouped by selectors: for every element that
/// `outer` selects, in the order scraper's `select` yields them (the order
/// the parser created the nodes), and for every element below it that
/// `inner` selects, its text nodes in order. `None` when a selector does not
/// parse.
pub uninterp spec fn selected_texts(html: Seq<char>, outer: Seq<char>, inner: Seq<char>) -> Option<
    Seq<Seq<Seq<Seq<char>>>>,
>;

/// Parses `html` with `scraper::Html::parse_document` and walks it with
/// `scraper::Selector::parse`, `ElementRef::select` and `ElementRef::text`,
/// keeping the text nodes as owned strings. The contract claims only that the
/// result is a function of the three strings (`selected_texts`); what the
/// HTML parser makes of a page is left unsaid.
#[verifier::external_body]
fn select_texts(html: &str, outer: &str, inner: &str) -> (r: Option<Vec<Vec<Vec<String>>>>)
    ensures
        r.deep_view() == selected_texts(html@, outer@, inner@),
{
    let doc = scraper::Html::parse_document(html);
    let outer = scraper::Selector::parse(outer).ok()?;
    let inner = scraper::Selector::parse(inner).ok()?;
    Some(
        doc.select(&outer).map(|o| o.select(&inner).map(|i| i.text().map(String::from).collect()).collect()).collect(),
    )
}

/// A table cell: its text nodes, and the text nodes of each link in it.
pub type CellView = (Seq<Seq<char>>, Seq<Seq<Seq<char>>>);

/// Whether a text is a CSS selector that scraper accepts.
pub uninterp spec fn selector_parses(s: Seq<char>) -> bool;

/// Calls `scraper::Selector::parse` and tells whether it succeeded; the
/// contract names the answer (`selector_parses`), a function of the text.
#[verifier::external_body]
fn parses_as_selector(s: &str) -> (r: bool)
    ensures
        r == selector_parses(s@),
{
    Selector::parse(s).is_ok()
}

/// The cells of the ban tables of a page, for selectors that parse: for
/// every element that `div` selects, in the order scraper's `select` yields
/// them (the order the parser created the nodes), every element below
/// it that `table` selects, and every element below that one that `table`
/// selects again (one ban entry each), the entry's rows (the elements below
/// it that `row` selects) and their cells (the elements below a row that
/// `cell` selects), each cell given by its text nodes and, for each element
/// below it that `link` selects, that element's text nodes.
pub uninterp spec fn nested_table_cells(
    html: Seq<char>,
    div: Seq<char>,
    table: Seq<char>,
    row: Seq<char>,
    cell: Seq<char>,
    link: Seq<char>,
) -> Seq<Seq<Seq<Seq<Seq<CellView>>>>>;

/// Parses `html` with `scraper::Html::parse_document` and walks the one
/// document with `scraper::Selector::parse`, `ElementRef::select` and
/// `ElementRef::text`, keeping the text nodes as owned strings. The five
/// selectors must parse (`Selector::parse` is unwrapped). The contract claims
/// only that the result is a function of the six strings
/// (`nested_table_cells`); what the HTML parser makes of a page is left
/// unsaid.
#[verifier::external_body]
fn select_table_cells(html: &str, div: &str, table: &str, row: &str, cell: &str, link: &str) -> (r:
    Vec<Vec<Vec<Vec<Vec<(Vec<String>, Vec<Vec<String>>)>>>>>)
    requires
        selector_parses(div@),
        selector_parses(table@),
        selector_parses(row@),
        selector_parses(cell@),
        selector_parses(link@),
    ensures
        r.deep_view() == nested_table_cells(html@, div@, table@, row@, cell@, link@),
{
    let p = |s| Selector::parse(s).unwrap();
    let (t, r, c, a) = (&p(table), &p(row), &p(cell), &p(link));
    let tx = |e: ElementRef| e.text().map(String::from).collect();
    Html::parse_document(html).select(&p(div)).map(|x| x.select(t).map(|y| y.select(t).map(|z| z.select(r).map(|w| w.select(c).map(|v| (tx(v), v.select(a).map(tx).collect())).collect()).collect()).collect()).collect()).collect()
}

/// The fields of a ban entry read so far.
pub struct BanFields {
    pub steamid: Option<u64>,
    pub when: Option<Seq<char>>,
    pub ban_length: Option<Seq<char>>,
    pub reason: Option<Seq<char>>,
}

/// The state of reading a ban entry row by row: the fields so far; or a row
/// that lacks a cell or a text the reading needs (the entry is dropped); or a
/// Steam3 ID that is no SteamID32 (on which the program stops).
pub enum BanScan {
    Fields(BanFields),
    Missing,
    BadId,
}

pub open spec fn scan_start() -> BanScan {
    BanScan::Fields(BanFields { steamid: None, when: None, ban_length: None, reason: None })
}

pub open spec fn with_steamid(f: BanFields, v: u64) -> BanScan {
    BanScan::Fields(
        BanFields { steamid: Some(v), when: f.when, ban_length: f.ban_length, reason: f.reason },
    )
}

pub open spec fn with_when(f: BanFields, v: Seq<char>) -> BanScan {
    BanScan::Fields(
        BanFields { steamid: f.steamid, when: Some(v), ban_length: f.ban_length, reason: f.reason },
    )
}

pub open spec fn with_ban_length(f: BanFields, v: Seq<char>) -> BanScan {
    BanScan::Fields(
        BanFields { steamid: f.steamid, when: f.when, ban_length: Some(v), reason: f.reason },
    )
}

pub open spec fn with_reason(f: BanFields, v: Seq<char>) -> BanScan {
    BanScan::Fields(
        BanFields { steamid: f.steamid, when: f.when, ban_length: f.ban_length, reason: Some(v) },
    )
}

/// The ban that a finished reading gives: all four fields are needed.
pub open spec fn ban_of(source: Seq<char>, s: BanScan) -> Option<BanView> {
    match s {
        BanScan::Fields(f) => if f.steamid is Some && f.when is Some && f.ban_length is Some
            && f.reason is Some {
            Some(
                BanView {
                    source,
                    steamid: f.steamid->0,
                    when: f.when->0,
                    ban_length: f.ban_length->0,
                    reason: f.reason->0,
                },
            )
        } else {
            None
        },
        _ => None,
    }
}

/// The non-empty trimmed texts of a `<li>`, in order.
pub open spec fn li_fields(texts: Seq<Seq<char>>) -> Seq<Seq<char>>
    decreases texts.len(),
{
    if texts.len() == 0 {
        Seq::empty()
    } else {
        let rest = li_fields(texts.drop_last());
        let t = trim(texts.last());
        if t.len() > 0 {
            rest.push(t)
        } else {
            rest
        }
    }
}

/// One `<li>` of a list entry: a label followed by its value.
pub open spec fn ul_step(s: BanScan, item: Seq<Seq<char>>) -> BanScan {
    match s {
        BanScan::Fields(f) => {
            let t = li_fields(item);
            if t.len() < 2 {
                s
            } else if t[0] == "Steam3 ID"@ {
                match parse_steam_id32(t[1]) {
                    Some(id) => with_steamid(f, id),
                    None => BanScan::BadId,
                }
            } else if t[0] == "Invoked on"@ {
                with_when(f, t[1])
            } else if t[0] == "Ban length"@ {
                with_ban_length(f, t[1])
            } else if t[0] == "Reason"@ {
                with_reason(f, t[1])
            } else {
                s
            }
        },
        _ => s,
    }
}

pub open spec fn ul_scan(items: Seq<Seq<Seq<char>>>) -> BanScan
    decreases items.len(),
{
    if items.len() == 0 {
        scan_start()
    } else {
        ul_step(ul_scan(items.drop_last()), items.last())
    }
}

/// The value of a row of a ban table, or `None` when the row lacks it.
pub open spec fn row_text(row: Seq<CellView>) -> Option<Seq<char>> {
    if row.len() >= 2 && row[1].0.len() > 0 {
        Some(trim(row[1].0[0]))
    } else {
        None
    }
}

/// The link text of a row of a ban table, or `None` when the row lacks it.
pub open spec fn row_link_text(row: Seq<CellView>) -> Option<Seq<char>> {
    if row.len() >= 2 && row[1].1.len() > 0 && row[1].1[0].len() > 0 {
        Some(trim(row[1].1[0][0]))
    } else {
        None
    }
}

/// One `<tr>` of a table entry: the first cell holds the label, the second
/// the value (for the Steam3 ID, inside a link).
pub open spec fn table_step(s: BanScan, row: Seq<CellView>) -> BanScan {
    match s {
        BanScan::Fields(f) => if row.len() == 0 || row[0].0.len() == 0 {
            BanScan::Missing
        } else {
            let label = trim(row[0].0[0]);
            if label == "Steam3 ID"@ {
                match row_link_text(row) {
                    Some(v) => match parse_steam_id32(v) {
                        Some(id) => with_steamid(f, id),
                        None => BanScan::BadId,
                    },
                    None => BanScan::Missing,
                }
            } else if label == "Invoked on"@ {
                match row_text(row) {
                    Some(v) => with_when(f, v),
                    None => BanScan::Missing,
                }
            } else if label == "Banlength"@ {
                match row_text(row) {
                    Some(v) => with_ban_length(f, v),
                    None => BanScan::Missing,
                }
            } else if label == "Reason"@ {
                match row_text(row) {
                    Some(v) => with_reason(f, v),
                    None => BanScan::Missing,
                }
            } else {
                s
            }
        },
        _ => s,
    }
}

pub open spec fn table_scan(rows: Seq<Seq<CellView>>) -> BanScan
    decreases rows.len(),
{
    if rows.len() == 0 {
        scan_start()
    } else {
        table_step(table_scan(rows.drop_last()), rows.last())
    }
}

pub proof fn lemma_ul_bad_id_stays(items: Seq<Seq<Seq<char>>>, i: int)
    requires
        0 <= i <= items.len(),
        ul_scan(items.take(i)) == BanScan::BadId,
    ensures
        ul_scan(items) == BanScan::BadId,
    decreases items.len() - i,
{
    if i < items.len() {
        assert(items.take(i + 1).drop_last() == items.take(i));
        lemma_ul_bad_id_stays(items, i + 1);
    } else {
        assert(items.take(i) == items);
    }
}

pub proof fn lemma_table_bad_id_stays(rows: Seq<Seq<CellView>>, i: int)
    requires
        0 <= i <= rows.len(),
        table_scan(rows.take(i)) == BanScan::BadId,
    ensures
        table_scan(rows) == BanScan::BadId,
    decreases rows.len() - i,
{
    if i < rows.len() {
        assert(rows.take(i + 1).drop_last() == rows.take(i));
        lemma_table_bad_id_stays(rows, i + 1);
    } else {
        assert(rows.take(i) == rows);
    }
}

pub proof fn lemma_table_missing_stays(rows: Seq<Seq<CellView>>, i: int)
    requires
        0 <= i <= rows.len(),
        table_scan(rows.take(i)) == BanScan::Missing,
    ensures
        table_scan(rows) == BanScan::Missing,
    decreases rows.len() - i,
{
    if i < rows.len() {
        assert(rows.take(i + 1).drop_last() == rows.take(i));
        lemma_table_missing_stays(rows, i + 1);
    } else {
        assert(rows.take(i) == rows);
    }
}

pub open spec fn id_opt_view(id: Option<SteamID>) -> Option<u64> {
    match id {
        Some(x) => Some(x@),
        None => None,
    }
}

pub open spec fn scan_is(
    s: BanScan,
    steamid: Option<SteamID>,
    when: Option<Vec<char>>,
    ban_length: Option<Vec<char>>,
    reason: Option<Vec<char>>,
) -> bool {
    s == BanScan::Fields(
        BanFields {
            steamid: id_opt_view(steamid),
            when: when.deep_view(),
            ban_length: ban_length.deep_view(),
            reason: reason.deep_view(),
        },
    )
}

fn finish_ban(
    name: &String,
    steamid: Option<SteamID>,
    when: Option<Vec<char>>,
    ban_length: Option<Vec<char>>,
    reason: Option<Vec<char>>,
) -> (r: Option<SourceBan>)
    ensures
        forall|s: BanScan|
            scan_is(s, steamid, when, ban_length, reason) ==> ban_opt_view(r) == ban_of(name@, s),
{
    if steamid.is_none() || when.is_none() || ban_length.is_none() || reason.is_none() {
        return None;
    }
    let id = steamid.unwrap();
    let w = when.unwrap();
    let l = ban_length.unwrap();
    let why = reason.unwrap();
    let ban = SourceBan {
        source: name.clone(),
        steamid: id,
        when: string_of(&w),
        ban_length: string_of(&l),
        reason: string_of(&why),
    };
    assert(ban@.source == name@);
    Some(ban)
}

fn li_fields_exec(texts: &Vec<String>) -> (r: Vec<Vec<char>>)
    ensures
        r.deep_view() == li_fields(texts.deep_view()),
{
    let ghost v = texts.deep_view();
    let mut r: Vec<Vec<char>> = Vec::new();
    let mut i: usize = 0;
    while i < texts.len()
        invariant
            i <= texts.len(),
            v == texts.deep_view(),
            r.deep_view() == li_fields(v.take(i as int)),
        decreases texts.len() - i,
    {
        let t = trim_str(texts[i].as_str());
        assert(v.take(i + 1).drop_last() == v.take(i as int));
        assert(v.take(i + 1).last() == texts@[i as int]@);
        if t.len() > 0 {
            let ghost before = r.deep_view();
            r.push(t);
            assert(r.deep_view() =~= before.push(t@));
        }
        i = i + 1;
    }
    assert(v.take(texts.len() as int) == v);
    r
}

/// Reads one list entry; the flag tells whether it holds a Steam3 ID that is
/// no SteamID32.
fn scan_ul_entry(source: &SourceBanSource, items: &Vec<Vec<String>>) -> (r: (bool, Option<SourceBan>))
    ensures
        r.0 == (ul_scan(items.deep_view()) is BadId),
        !r.0 ==> ban_opt_view(r.1) == ban_of(source.name@, ul_scan(items.deep_view())),
{
    let ghost views = items.deep_view();
    let l_id = chars_of("Steam3 ID");
    let l_when = chars_of("Invoked on");
    let l_length = chars_of("Ban length");
    let l_reason = chars_of("Reason");
    let mut steamid: Option<SteamID> = None;
    let mut when: Option<Vec<char>> = None;
    let mut ban_length: Option<Vec<char>> = None;
    let mut reason: Option<Vec<char>> = None;
    let mut i: usize = 0;
    while i < items.len()
        invariant
            i <= items.len(),
            views == items.deep_view(),
            l_id@ == "Steam3 ID"@,
            l_when@ == "Invoked on"@,
            l_length@ == "Ban length"@,
            l_reason@ == "Reason"@,
            scan_is(ul_scan(views.take(i as int)), steamid, when, ban_length, reason),
        decreases items.len() - i,
    {
        assert(views.take(i + 1).drop_last() == views.take(i as int));
        assert(views.take(i + 1).last() == items@[i as int].deep_view());
        let f = li_fields_exec(&items[i]);
        if f.len() >= 2 {
            assert(f.deep_view()[0] == f@[0]@);
            assert(f.deep_view()[1] == f@[1]@);
            if chars_eq(&f[0], &l_id) {
                let v = f[1].clone();
                match SteamID::try_from_steam_id32_chars(v) {
                    Some(id) => {
                        steamid = Some(id);
                    },
                    None => {
                        proof {
                            lemma_ul_bad_id_stays(views, i + 1);
                        }
                        return (true, None);
                    },
                }
            } else if chars_eq(&f[0], &l_when) {
                when = Some(f[1].clone());
            } else if chars_eq(&f[0], &l_length) {
                ban_length = Some(f[1].clone());
            } else if chars_eq(&f[0], &l_reason) {
                reason = Some(f[1].clone());
            }
        }
        i = i + 1;
    }
    assert(views.take(items.len() as int) == views);
    (false, finish_ban(&source.name, steamid, when, ban_length, reason))
}

/// Reads one `<ul class="ban_list_detal">` entry, given the texts of its
/// `<li>` items: each item whose non-empty trimmed texts number at least two
/// is a label and its value; the last value of each of the labels
/// `Steam3 ID`, `Invoked on`, `Ban length` and `Reason` is kept, and all four
/// are needed.
pub fn parse_source_ban_one_ul(source: &SourceBanSource, items: &Vec<Vec<String>>) -> (r: Option<
    SourceBan,
>)
    requires
        !(ul_scan(items.deep_view()) is BadId),
    ensures
        ban_opt_view(r) == ban_of(source.name@, ul_scan(items.deep_view())),
{
    scan_ul_entry(source, items).1
}

fn cell_text(cell: &(Vec<String>, Vec<Vec<String>>)) -> (r: Option<Vec<char>>)
    ensures
        r.deep_view() == (if cell.deep_view().0.len() > 0 {
            Some(trim(cell.deep_view().0[0]))
        } else {
            None
        }),
{
    if cell.0.len() > 0 {
        assert(cell.deep_view().0[0] == cell.0@[0]@);
        Some(trim_str(cell.0[0].as_str()))
    } else {
        None
    }
}

fn row_text_exec(row: &Vec<(Vec<String>, Vec<Vec<String>>)>) -> (r: Option<Vec<char>>)
    ensures
        r.deep_view() == row_text(row.deep_view()),
{
    if row.len() >= 2 {
        assert(row.deep_view()[1] == row@[1].deep_view());
        cell_text(&row[1])
    } else {
        None
    }
}

fn row_link_text_exec(row: &Vec<(Vec<String>, Vec<Vec<String>>)>) -> (r: Option<Vec<char>>)
    ensures
        r.deep_view() == row_link_text(row.deep_view()),
{
    if row.len() >= 2 {
        assert(row.deep_view()[1] == row@[1].deep_view());
        let links = &row[1].1;
        if links.len() > 0 {
            assert(row.deep_view()[1].1[0] == links@[0].deep_view());
            if links[0].len() > 0 {
                assert(row.deep_view()[1].1[0][0] == links@[0]@[0]@);
                return Some(trim_str(links[0][0].as_str()));
            }
        }
    }
    None
}

/// Reads one ban table entry; the flag tells whether it holds a Steam3 ID
/// that is no SteamID32.
fn scan_table_entry(
    source: &SourceBanSource,
    rows: &Vec<Vec<(Vec<String>, Vec<Vec<String>>)>>,
) -> (r: (bool, Option<SourceBan>))
    ensures
        r.0 == (table_scan(rows.deep_view()) is BadId),
        !r.0 ==> ban_opt_view(r.1) == ban_of(source.name@, table_scan(rows.deep_view())),
{
    let ghost views = rows.deep_view();
    let l_id = chars_of("Steam3 ID");
    let l_when = chars_of("Invoked on");
    let l_length = chars_of("Banlength");
    let l_reason = chars_of("Reason");
    let mut steamid: Option<SteamID> = None;
    let mut when: Option<Vec<char>> = None;
    let mut ban_length: Option<Vec<char>> = None;
    let mut reason: Option<Vec<char>> = None;
    let mut i: usize = 0;
    while i < rows.len()
        invariant
            i <= rows.len(),
            views == rows.deep_view(),
            l_id@ == "Steam3 ID"@,
            l_when@ == "Invoked on"@,
            l_length@ == "Banlength"@,
            l_reason@ == "Reason"@,
            scan_is(table_scan(views.take(i as int)), steamid, when, ban_length, reason),
        decreases rows.len() - i,
    {
        assert(views.take(i + 1).drop_last() == views.take(i as int));
        assert(views.take(i + 1).last() == rows@[i as int].deep_view());
        let row = &rows[i];
        let ghost rv = row.deep_view();
        assert(rv == views[i as int]);
        if row.len() == 0 {
            proof {
                lemma_table_missing_stays(views, i + 1);
            }
            return (false, None);
        }
        assert(row.deep_view()[0] == row@[0].deep_view());
        let label = match cell_text(&row[0]) {
            Some(l) => l,
            None => {
                proof {
                    lemma_table_missing_stays(views, i + 1);
                }
                return (false, None);
            },
        };
        if chars_eq(&label, &l_id) {
            match row_link_text_exec(row) {
                Some(v) => {
                    match SteamID::try_from_steam_id32_chars(v) {
                        Some(id) => {
                            steamid = Some(id);
                        },
                        None => {
                            assert(label@ == trim(rv[0].0[0]));
                            assert(table_step(table_scan(views.take(i as int)), rv) == BanScan::BadId);
                            proof {
                                lemma_table_bad_id_stays(views, i + 1);
                            }
                            return (true, None);
                        },
                    }
                },
                None => {
                    proof {
                        lemma_table_missing_stays(views, i + 1);
                    }
                    return (false, None);
                },
            }
        } else if chars_eq(&label, &l_when) || chars_eq(&label, &l_length) || chars_eq(
            &label,
            &l_reason,
        ) {
            match row_text_exec(row) {
                Some(v) => {
                    if chars_eq(&label, &l_when) {
                        when = Some(v);
                    } else if chars_eq(&label, &l_length) {
                        ban_length = Some(v);
                    } else {
                        reason = Some(v);
                    }
                },
                None => {
                    proof {
                        lemma_table_missing_stays(views, i + 1);
                    }
                    return (false, None);
                },
            }
        }
        i = i + 1;
    }
    assert(views.take(rows.len() as int) == views);
    (false, finish_ban(&source.name, steamid, when, ban_length, reason))
}

/// Reads one `<table class="listtable">` ban entry, given the cells of its
/// rows: the first cell of a row holds the label, the second the value (for
/// `Steam3 ID`, the text of the first link in it); the last value of each of
/// the labels `Steam3 ID`, `Invoked on`, `Banlength` and `Reason` is kept,
/// and all four are needed. A row without a label, or a labelled row without
/// its value, drops the entry.
pub fn parse_source_ban_one_table(
    source: &SourceBanSource,
    rows: &Vec<Vec<(Vec<String>, Vec<Vec<String>>)>>,
) -> (r: Option<SourceBan>)
    requires
        !(table_scan(rows.deep_view()) is BadId),
    ensures
        ban_opt_view(r) == ban_of(source.name@, table_scan(rows.deep_view())),
{
    scan_table_entry(source, rows).1
}

/// The bans of a page's entries, in order, or `None` when an entry holds a
/// Steam3 ID that is no SteamID32.
pub open spec fn ul_entries_bans(name: Seq<char>, groups: Seq<Seq<Seq<Seq<char>>>>) -> Option<
    Seq<BanView>,
>
    decreases groups.len(),
{
    if groups.len() == 0 {
        Some(Seq::empty())
    } else {
        match ul_entries_bans(name, groups.drop_last()) {
            None => None,
            Some(rest) => {
                let s = ul_scan(groups.last());
                if s is BadId {
                    None
                } else {
                    match ban_of(name, s) {
                        Some(b) => Some(rest.push(b)),
                        None => Some(rest),
                    }
                }
            },
        }
    }
}

/// The bans of the table entries (each given by the cells of its rows), in
/// order, or `None` when an entry holds a Steam3 ID that is no SteamID32.
pub open spec fn table_entries_bans(name: Seq<char>, entries: Seq<Seq<Seq<CellView>>>) -> Option<Seq<BanView>>
    decreases entries.len(),
{
    if entries.len() == 0 {
        Some(Seq::empty())
    } else {
        match table_entries_bans(name, entries.drop_last()) {
            None => None,
            Some(rest) => {
                let s = table_scan(entries.last());
                if s is BadId {
                    None
                } else {
                    match ban_of(name, s) {
                        Some(b) => Some(rest.push(b)),
                        None => Some(rest),
                    }
                }
            },
        }
    }
}

/// What a page laid out as lists gives: nothing unless it mentions
/// `ban_list_detal`; otherwise the bans of its `ul.ban_list_detal` entries.
pub open spec fn ul_page(html: Seq<char>, name: Seq<char>) -> Option<Seq<BanView>> {
    if !contains(html, "ban_list_detal"@) {
        None
    } else {
        match selected_texts(html, "ul.ban_list_detal"@, "li"@) {
            Some(groups) => ul_entries_bans(name, groups),
            None => None,
        }
    }
}

/// Whether the selectors of the table layout parse.
pub open spec fn table_selectors_parse() -> bool {
    &&& selector_parses("div#banlist"@)
    &&& selector_parses("table.listtable"@)
    &&& selector_parses("tr"@)
    &&& selector_parses("td"@)
    &&& selector_parses("a"@)
}

/// What a page laid out as tables gives: the bans of the `table.listtable`
/// entries inside the first `table.listtable` of the first `div#banlist`, or
/// nothing when there is no such table (or a selector does not parse).
pub open spec fn table_page(html: Seq<char>, name: Seq<char>) -> Option<Seq<BanView>> {
    let divs = nested_table_cells(html, "div#banlist"@, "table.listtable"@, "tr"@, "td"@, "a"@);
    if table_selectors_parse() && divs.len() > 0 && divs[0].len() > 0 {
        table_entries_bans(name, divs[0][0])
    } else {
        None
    }
}

/// What a fetched page of `source` gives.
pub open spec fn source_page(html: Seq<char>, source: SourceView) -> Option<Seq<BanView>> {
    match source.parser {
        SourceBanParser::Ul => ul_page(html, source.name),
        SourceBanParser::Table => table_page(html, source.name),
    }
}

pub open spec fn bans_opt_view(bans: Option<Vec<SourceBan>>) -> Option<Seq<BanView>> {
    match bans {
        Some(b) => Some(bans_view(b@)),
        None => None,
    }
}

proof fn lemma_bans_view_push(bans: Seq<SourceBan>, b: SourceBan)
    ensures
        bans_view(bans.push(b)) == bans_view(bans).push(b@),
{
    assert(bans_view(bans.push(b)) =~= bans_view(bans).push(b@));
}

proof fn lemma_bans_view_append(a: Seq<SourceBan>, b: Seq<SourceBan>)
    ensures
        bans_view(a + b) == bans_view(a) + bans_view(b),
{
    assert(bans_view(a + b) =~= bans_view(a) + bans_view(b));
}

proof fn lemma_ul_entries_none_stays(name: Seq<char>, groups: Seq<Seq<Seq<Seq<char>>>>, i: int)
    requires
        0 <= i <= groups.len(),
        ul_entries_bans(name, groups.take(i)) is None,
    ensures
        ul_entries_bans(name, groups) is None,
    decreases groups.len() - i,
{
    if i < groups.len() {
        assert(groups.take(i + 1).drop_last() == groups.take(i));
        lemma_ul_entries_none_stays(name, groups, i + 1);
    } else {
        assert(groups.take(i) == groups);
    }
}

proof fn lemma_table_entries_none_stays(name: Seq<char>, entries: Seq<Seq<Seq<CellView>>>, i: int)
    requires
        0 <= i <= entries.len(),
        table_entries_bans(name, entries.take(i)) is None,
    ensures
        table_entries_bans(name, entries) is None,
    decreases entries.len() - i,
{
    if i < entries.len() {
        assert(entries.take(i + 1).drop_last() == entries.take(i));
        lemma_table_entries_none_stays(name, entries, i + 1);
    } else {
        assert(entries.take(i) == entries);
    }
}

/// A ban page whose entries include one with a Steam3 ID that is no
/// SteamID32: reading it cannot go on.
#[derive(Debug, Clone, Copy, PartialEq, Eq, Structural)]
pub struct MalformedPage;

/// Reads the bans of `<ul class="ban_list_detal">` entries, each given by
/// the text nodes of its `<li>` items: the bans in order, or `MalformedPage`
/// where an entry holds a Steam3 ID that is no SteamID32.
pub fn parse_ul_entries(source: &SourceBanSource, groups: &Vec<Vec<Vec<String>>>) -> (r: Result<
    Vec<SourceBan>,
    MalformedPage,
>)
    ensures
        match ul_entries_bans(source.name@, groups.deep_view()) {
            Some(bans) => r matches Ok(v) && bans_view(v@) == bans,
            None => r is Err,
        },
{
    let ghost views = groups.deep_view();
    let mut result: Vec<SourceBan> = Vec::new();
    let mut i: usize = 0;
    while i < groups.len()
        invariant
            i <= groups.len(),
            views == groups.deep_view(),
            ul_entries_bans(source.name@, views.take(i as int)) == Some(bans_view(result@)),
        decreases groups.len() - i,
    {
        assert(views.take(i + 1).drop_last() == views.take(i as int));
        assert(views.take(i + 1).last() == groups@[i as int].deep_view());
        let (bad, ban) = scan_ul_entry(source, &groups[i]);
        if bad {
            proof {
                let t = views.take(i + 1);
                assert(ul_scan(t.last()) is BadId);
                assert(ul_entries_bans(source.name@, t.drop_last()) is Some);
                assert(ul_entries_bans(source.name@, t) is None);
                lemma_ul_entries_none_stays(source.name@, views, i + 1);
            }
            return Err(MalformedPage);
        }
        match ban {
            Some(b) => {
                proof {
                    lemma_bans_view_push(result@, b);
                }
                result.push(b);
            },
            None => {},
        }
        i = i + 1;
    }
    assert(views.take(groups.len() as int) == views);
    Ok(result)
}

/// Reads the bans of `<table class="listtable">` entries, each given by the
/// cells of its rows: the bans in order, or `MalformedPage` where an entry
/// holds a Steam3 ID that is no SteamID32.
pub fn parse_table_entries(
    source: &SourceBanSource,
    entries: &Vec<Vec<Vec<(Vec<String>, Vec<Vec<String>>)>>>,
) -> (r: Result<Vec<SourceBan>, MalformedPage>)
    ensures
        match table_entries_bans(source.name@, entries.deep_view()) {
            Some(bans) => r matches Ok(v) && bans_view(v@) == bans,
            None => r is Err,
        },
{
    let ghost views = entries.deep_view();
    let mut result: Vec<SourceBan> = Vec::new();
    let mut i: usize = 0;
    while i < entries.len()
        invariant
            i <= entries.len(),
            views == entries.deep_view(),
            table_entries_bans(source.name@, views.take(i as int)) == Some(bans_view(result@)),
        decreases entries.len() - i,
    {
        assert(views.take(i + 1).drop_last() == views.take(i as int));
        assert(views.take(i + 1).last() == entries@[i as int].deep_view());
        let (bad, ban) = scan_table_entry(source, &entries[i]);
        if bad {
            proof {
                let t = views.take(i + 1);
                assert(table_entries_bans(source.name@, t.drop_last()) is Some);
                assert(table_entries_bans(source.name@, t) is None);
                lemma_table_entries_none_stays(source.name@, views, i + 1);
            }
            return Err(MalformedPage);
        }
        match ban {
            Some(b) => {
                proof {
                    lemma_bans_view_push(result@, b);
                }
                result.push(b);
            },
            None => {},
        }
        i = i + 1;
    }
    assert(views.take(entries.len() as int) == views);
    Ok(result)
}

/// Whether a page laid out as lists is malformed: it is a ban page whose
/// entries include one with a Steam3 ID that is no SteamID32.
pub open spec fn ul_page_malformed(html: Seq<char>, name: Seq<char>) -> bool {
    &&& contains(html, "ban_list_detal"@)
    &&& selected_texts(html, "ul.ban_list_detal"@, "li"@) matches Some(groups)
    &&& ul_entries_bans(name, groups) is None
}

/// Whether a page laid out as tables is malformed (as for lists).
pub open spec fn table_page_malformed(html: Seq<char>, name: Seq<char>) -> bool {
    let divs = nested_table_cells(html, "div#banlist"@, "table.listtable"@, "tr"@, "td"@, "a"@);
    &&& table_selectors_parse()
    &&& divs.len() > 0 && divs[0].len() > 0
    &&& table_entries_bans(name, divs[0][0]) is None
}

pub open spec fn source_page_malformed(html: Seq<char>, source: SourceView) -> bool {
    match source.parser {
        SourceBanParser::Ul => ul_page_malformed(html, source.name),
        SourceBanParser::Table => table_page_malformed(html, source.name),
    }
}

/// What reading a page gives: `MalformedPage` on a malformed page, otherwise
/// the bans of the page (`None` when it is no ban page).
pub open spec fn page_result_is(
    r: Result<Option<Vec<SourceBan>>, MalformedPage>,
    malformed: bool,
    bans: Option<Seq<BanView>>,
) -> bool {
    match r {
        Err(_) => malformed,
        Ok(o) => !malformed && bans_opt_view(o) == bans,
    }
}

/// Reads the bans of a page laid out as `<ul class="ban_list_detal">` lists
/// (see `ul_page`); `MalformedPage` where an entry holds a Steam3 ID that is
/// no SteamID32.
pub fn parse_source_ban_ul(html: &str, source: &SourceBanSource) -> (r: Result<
    Option<Vec<SourceBan>>,
    MalformedPage,
>)
    ensures
        page_result_is(r, ul_page_malformed(html@, source.name@), ul_page(html@, source.name@)),
{
    let marker = chars_of("ban_list_detal");
    if !contains_exec(&chars_of(html), &marker) {
        return Ok(None);
    }
    match select_texts(html, "ul.ban_list_detal", "li") {
        Some(groups) => match parse_ul_entries(source, &groups) {
            Ok(bans) => Ok(Some(bans)),
            Err(e) => Err(e),
        },
        None => Ok(None),
    }
}

/// Reads the bans of a page laid out as `<table class="listtable">` entries
/// inside the first such table of `<div id="banlist">` (see `table_page`);
/// `MalformedPage` where an entry holds a Steam3 ID that is no SteamID32.
pub fn parse_source_ban_table(html: &str, source: &SourceBanSource) -> (r: Result<
    Option<Vec<SourceBan>>,
    MalformedPage,
>)
    ensures
        page_result_is(r, table_page_malformed(html@, source.name@), table_page(html@, source.name@)),
{
    if !(parses_as_selector("div#banlist") && parses_as_selector("table.listtable")
        && parses_as_selector("tr") && parses_as_selector("td") && parses_as_selector("a")) {
        return Ok(None);
    }
    let divs = select_table_cells(html, "div#banlist", "table.listtable", "tr", "td", "a");
    if divs.len() == 0 {
        return Ok(None);
    }
    assert(divs.deep_view()[0] == divs@[0].deep_view());
    if divs[0].len() == 0 {
        return Ok(None);
    }
    assert(divs.deep_view()[0][0] == divs@[0]@[0].deep_view());
    match parse_table_entries(source, &divs[0][0]) {
        Ok(bans) => Ok(Some(bans)),
        Err(e) => Err(e),
    }
}

/// Reads the bans of a fetched page of `source`, by the layout of that source.
pub fn parse_source_ban_page(html: &str, source: &SourceBanSource) -> (r: Result<
    Option<Vec<SourceBan>>,
    MalformedPage,
>)
    ensures
        page_result_is(r, source_page_malformed(html@, source@), source_page(html@, source@)),
{
    match source.parser {
        SourceBanParser::Ul => parse_source_ban_ul(html, source),
        SourceBanParser::Table => parse_source_ban_table(html, source),
    }
}

/// The bans found on the first `n` pages (page `i` fetched from source `i`,
/// `None` where it could not be fetched), and how many of them could be read
/// (for pages none of which is malformed).
pub open spec fn fetched_bans(sources: Seq<SourceView>, pages: Seq<Option<Seq<char>>>, n: int) -> (
    Seq<BanView>,
    nat,
)
    decreases n,
{
    if n <= 0 {
        (Seq::empty(), 0)
    } else {
        let (bans, count) = fetched_bans(sources, pages, n - 1);
        match pages[n - 1] {
            Some(html) => match source_page(html, sources[n - 1]) {
                Some(found) => (bans + found, count + 1),
                None => (bans, count),
            },
            None => (bans, count),
        }
    }
}

pub open spec fn min_len(a: nat, b: nat) -> int {
    if a <= b {
        a as int
    } else {
        b as int
    }
}

/// Whether one of the first `n` fetched pages is malformed.
pub open spec fn some_page_malformed(sources: Seq<SourceView>, pages: Seq<Option<Seq<char>>>, n: int) -> bool
    decreases n,
{
    if n <= 0 {
        false
    } else {
        some_page_malformed(sources, pages, n - 1) || (pages[n - 1] matches Some(html)
            && source_page_malformed(html, sources[n - 1]))
    }
}

/// Gathers the bans of a player from the pages fetched for each source
/// (`pages[i]` from `sources[i]`; pages beyond the sources are not read), and
/// counts the sources whose page could be read; `MalformedPage` when one of
/// the pages is malformed.
pub fn get_source_bans(sources: &Vec<SourceBanSource>, pages: &Vec<Option<String>>) -> (r: Result<
    SourceBanFetchResult,
    MalformedPage,
>)
    ensures
        ({
            let n = min_len(sources@.len(), pages@.len());
            let (bans, count) = fetched_bans(sources_view(sources@), pages.deep_view(), n);
            match r {
                Err(_) => some_page_malformed(sources_view(sources@), pages.deep_view(), n),
                Ok(f) => !some_page_malformed(sources_view(sources@), pages.deep_view(), n)
                    && bans_view(f.bans@) == bans && f.successful_sources == count,
            }
        }),
{
    let n: usize = if sources.len() <= pages.len() {
        sources.len()
    } else {
        pages.len()
    };
    let ghost sv = sources_view(sources@);
    let ghost pv = pages.deep_view();
    let mut bans: Vec<SourceBan> = Vec::new();
    let mut count: usize = 0;
    let mut i: usize = 0;
    while i < n
        invariant
            i <= n,
            n <= sources.len(),
            n <= pages.len(),
            n == min_len(sources@.len(), pages@.len()),
            sv == sources_view(sources@),
            pv == pages.deep_view(),
            count <= i,
            !some_page_malformed(sv, pv, i as int),
            fetched_bans(sv, pv, i as int) == (bans_view(bans@), count as nat),
        decreases n - i,
    {
        assert(pv[i as int] == pages@[i as int].deep_view());
        assert(sv[i as int] == sources@[i as int]@);
        match &pages[i] {
            Some(html) => {
                match parse_source_ban_page(html.as_str(), &sources[i]) {
                    Ok(Some(found)) => {
                        proof {
                            lemma_bans_view_append(bans@, found@);
                        }
                        let mut found = found;
                        bans.append(&mut found);
                        count = count + 1;
                    },
                    Ok(None) => {},
                    Err(e) => {
                        proof {
                            lemma_malformed_stays(sv, pv, i as int + 1, n as int);
                        }
                        return Err(e);
                    },
                }
            },
            None => {},
        }
        i = i + 1;
    }
    Ok(SourceBanFetchResult { bans, successful_sources: count })
}

proof fn lemma_malformed_stays(sources: Seq<SourceView>, pages: Seq<Option<Seq<char>>>, i: int, n: int)
    requires
        0 <= i <= n,
        some_page_malformed(sources, pages, i),
    ensures
        some_page_malformed(sources, pages, n),
    decreases n - i,
{
    if i < n {
        lemma_malformed_stays(sources, pages, i + 1, n);
    }
}

proof fn lemma_ban_of_source(name: Seq<char>, s: BanScan)
    ensures
        ban_of(name, s) matches Some(b) ==> b.source == name,
{
}

proof fn lemma_ul_entries_source(name: Seq<char>, groups: Seq<Seq<Seq<Seq<char>>>>)
    ensures
        ul_entries_bans(name, groups) matches Some(bans) ==> forall|i: int|
            0 <= i < bans.len() ==> (#[trigger] bans[i]).source == name,
    decreases groups.len(),
{
    if groups.len() > 0 {
        lemma_ul_entries_source(name, groups.drop_last());
        lemma_ban_of_source(name, ul_scan(groups.last()));
    }
}

proof fn lemma_table_entries_source(name: Seq<char>, entries: Seq<Seq<Seq<CellView>>>)
    ensures
        table_entries_bans(name, entries) matches Some(bans) ==> forall|i: int|
            0 <= i < bans.len() ==> (#[trigger] bans[i]).source == name,
    decreases entries.len(),
{
    if entries.len() > 0 {
        lemma_table_entries_source(name, entries.drop_last());
        lemma_ban_of_source(name, table_scan(entries.last()));
    }
}

/// Every ban read from a page of a source is marked with that source's name.
pub proof fn law_page_bans_name_their_source(html: Seq<char>, source: SourceView)
    ensures
        source_page(html, source) matches Some(bans) ==> forall|i: int|
            0 <= i < bans.len() ==> (#[trigger] bans[i]).source == source.name,
{
    match source.parser {
        SourceBanParser::Ul => {
            if contains(html, "ban_list_detal"@) {
                match selected_texts(html, "ul.ban_list_detal"@, "li"@) {
                    Some(groups) => lemma_ul_entries_source(source.name, groups),
                    None => {},
                }
            }
        },
        SourceBanParser::Table => {
            let divs = nested_table_cells(html, "div#banlist"@, "table.listtable"@, "tr"@, "td"@, "a"@);
            if divs.len() > 0 && divs[0].len() > 0 {
                lemma_table_entries_source(source.name, divs[0][0]);
            }
        },
    }
}

/// Every ban gathered from the fetched pages is marked with the name of one
/// of the sources searched, and at most one source is counted per page.
pub proof fn law_fetched_bans_name_a_source(sources: Seq<SourceView>, pages: Seq<Option<Seq<char>>>, n: int)
    requires
        0 <= n <= sources.len(),
        n <= pages.len(),
    ensures
        forall|i: int|
            0 <= i < fetched_bans(sources, pages, n).0.len() ==> exists|k: int|
                0 <= k < n && (#[trigger] fetched_bans(sources, pages, n).0[i]).source == sources[k].name,
        fetched_bans(sources, pages, n).1 <= n,
    decreases n,
{
    if n > 0 {
        law_fetched_bans_name_a_source(sources, pages, n - 1);
        let (before, count) = fetched_bans(sources, pages, n - 1);
        let all = fetched_bans(sources, pages, n).0;
        match pages[n - 1] {
            Some(html) => {
                law_page_bans_name_their_source(html, sources[n - 1]);
                match source_page(html, sources[n - 1]) {
                    Some(found) => {
                        assert(all == before + found);
                        assert forall|i: int| 0 <= i < all.len() implies exists|k: int|
                            0 <= k < n && (#[trigger] all[i]).source == sources[k].name by {
                            if i < before.len() {
                                assert(all[i] == before[i]);
                                let k = choose|k: int| 0 <= k < n - 1 && before[i].source == sources[k].name;
                                assert(0 <= k < n && all[i].source == sources[k].name);
                            } else {
                                assert(all[i] == found[i - before.len()]);
                                assert(all[i].source == sources[n - 1].name);
                            }
                        }
                    },
                    None => {},
                }
            },
            None => {},
        }
    }
}

/// The sources searched are the five sites, in this order, each read by its
/// own layout: UGC-Gaming.net and blackwonder.tf as lists, flux.tf, dpg.tf
/// and skial.com as tables (for every page fetched from them).
pub proof fn law_sources_and_layouts(html: Seq<char>)
    ensures
        sources_spec().len() == 5,
        sources_spec()[0].name == "UGC-Gaming.net"@,
        sources_spec()[1].name == "blackwonder.tf"@,
        sources_spec()[2].name == "flux.tf"@,
        sources_spec()[3].name == "dpg.tf"@,
        sources_spec()[4].name == "skial.com"@,
        source_page(html, sources_spec()[0]) == ul_page(html, "UGC-Gaming.net"@),
        source_page(html, sources_spec()[1]) == ul_page(html, "blackwonder.tf"@),
        source_page(html, sources_spec()[2]) == table_page(html, "flux.tf"@),
        source_page(html, sources_spec()[3]) == table_page(html, "dpg.tf"@),
        source_page(html, sources_spec()[4]) == table_page(html, "skial.com"@),
        source_page_malformed(html, sources_spec()[1]) == ul_page_malformed(html, "blackwonder.tf"@),
        source_page_malformed(html, sources_spec()[2]) == table_page_malformed(html, "flux.tf"@),
{
}

} // verus!

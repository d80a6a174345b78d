//! How the scoreboard lays the lobby out: which players stand in which
//! column, and the lines written beside the columns.
use crate::scoreboard::{sort_for_scoreboard, sorted_for_scoreboard, with_key, Player, ScoreKey, SortBy, Team};
use crate::colors::NamedColor;
use crate::text::{
    chars_of, dec, decimal_chars, join, join_strings, push_chars, push_str, string_of, u64_to_string,
};
use vstd::prelude::*;

verus! {

/// The players of `s` on team `t`, in the order of `s`.
pub open spec fn of_team(s: Seq<Player>, t: Team) -> Seq<Player>
    decreases s.len(),
{
    if s.len() == 0 {
        Seq::empty()
    } else {
        let rest = of_team(s.drop_last(), t);
        if s.last().team == t {
            rest.push(s.last())
        } else {
            rest
        }
    }
}

pub open spec fn names_of(s: Seq<Player>) -> Seq<Seq<char>> {
    s.map_values(|p: Player| p.name@)
}

/// A column of the scoreboard: its title and its players, in order.
pub struct TeamColumn {
    pub title: String,
    pub players: Vec<Player>,
}

/// The scoreboard of a lobby.
pub struct ScoreboardLayout {
    /// The two columns, when there are any.
    pub columns: Option<(TeamColumn, TeamColumn)>,
    /// `Unknown team: ...`: the players of no known team beyond the first 24.
    pub unknown_team_line: Option<String>,
    /// `Spectators: ...`.
    pub spectators_line: Option<String>,
    /// Whether a separator follows the spectators line.
    pub separator_after_spectators: bool,
}

pub open spec fn min_int(a: int, b: int) -> int {
    if a <= b {
        a
    } else {
        b
    }
}

pub open spec fn column_is(c: TeamColumn, title: Seq<char>, players: Seq<Player>) -> bool {
    c.title@ == title && c.players@ == players
}

/// The layout of a lobby whose players, sorted for the scoreboard, are
/// `sorted`: the Blu and Red columns when either team has players; otherwise
/// the players of no known team, twelve to a column, the rest named on a line
/// of their own; and the spectators named on a line.
pub open spec fn layout_is(l: ScoreboardLayout, sorted: Seq<Player>) -> bool {
    let blu = of_team(sorted, Team::Blue);
    let red = of_team(sorted, Team::Red);
    let spec = of_team(sorted, Team::Spec);
    let unknown = of_team(sorted, Team::Unknown);
    &&& if blu.len() > 0 || red.len() > 0 {
        &&& l.columns matches Some((c1, c2)) && column_is(c1, "Blu"@, blu) && column_is(c2, "Red"@, red)
        &&& l.unknown_team_line is None
    } else if unknown.len() > 0 {
        &&& l.columns matches Some((c1, c2)) && column_is(
            c1,
            "Players 1-12"@,
            unknown.take(min_int(12, unknown.len() as int)),
        ) && column_is(
            c2,
            "Players 13-24"@,
            unknown.subrange(min_int(12, unknown.len() as int), min_int(24, unknown.len() as int)),
        )
        &&& if unknown.len() > 24 {
            l.unknown_team_line matches Some(line) && line@ == "Unknown team: "@ + join(
                names_of(unknown.skip(24)),
                ", "@,
            )
        } else {
            l.unknown_team_line is None
        }
    } else {
        &&& l.columns is None
        &&& l.unknown_team_line is None
    }
    &&& if spec.len() > 0 {
        &&& l.spectators_line matches Some(line) && line@ == "Spectators: "@ + join(
            names_of(spec),
            ", "@,
        )
        &&& l.separator_after_spectators == (unknown.len() > 0)
    } else {
        &&& l.spectators_line is None
        &&& !l.separator_after_spectators
    }
}

struct TeamSplit {
    blu: Vec<Player>,
    red: Vec<Player>,
    spec: Vec<Player>,
    unknown: Vec<Player>,
}

fn split_teams(players: Vec<Player>) -> (r: TeamSplit)
    ensures
        r.blu@ == of_team(players@, Team::Blue),
        r.red@ == of_team(players@, Team::Red),
        r.spec@ == of_team(players@, Team::Spec),
        r.unknown@ == of_team(players@, Team::Unknown),
{
    let ghost orig = players@;
    let mut input = players;
    let mut r = TeamSplit { blu: Vec::new(), red: Vec::new(), spec: Vec::new(), unknown: Vec::new() };
    let ghost mut n: int = 0;
    assert(orig.skip(0) == orig);
    while input.len() > 0
        invariant
            0 <= n <= orig.len(),
            input@ == orig.skip(n),
            r.blu@ == of_team(orig.take(n), Team::Blue),
            r.red@ == of_team(orig.take(n), Team::Red),
            r.spec@ == of_team(orig.take(n), Team::Spec),
            r.unknown@ == of_team(orig.take(n), Team::Unknown),
        decreases input.len(),
    {
        let p = input.remove(0);
        assert(p == orig[n]);
        assert(orig.take(n + 1).drop_last() == orig.take(n));
        assert(orig.take(n + 1).last() == p);
        assert(input@ == orig.skip(n + 1));
        match p.team {
            Team::Blue => r.blu.push(p),
            Team::Red => r.red.push(p),
            Team::Spec => r.spec.push(p),
            Team::Unknown => r.unknown.push(p),
        }
        proof {
            n = n + 1;
        }
    }
    assert(orig.take(n) == orig);
    r
}

fn names(players: &Vec<Player>) -> (r: Vec<String>)
    ensures
        r.deep_view() == names_of(players@),
{
    let mut r: Vec<String> = Vec::new();
    let mut i: usize = 0;
    while i < players.len()
        invariant
            i <= players.len(),
            r.deep_view() == names_of(players@.take(i as int)),
        decreases players.len() - i,
    {
        let ghost before = r.deep_view();
        r.push(players[i].name.clone());
        assert(r.deep_view() =~= before.push(players@[i as int].name@));
        i = i + 1;
        assert(names_of(players@.take(i as int)) =~= names_of(players@.take(i - 1)).push(
            players@[i - 1].name@,
        ));
    }
    assert(players@.take(players.len() as int) == players@);
    r
}

fn prefixed_names(prefix: &str, players: &Vec<Player>) -> (r: String)
    ensures
        r@ == prefix@ + join(names_of(players@), ", "@),
{
    let mut out: Vec<char> = Vec::new();
    push_str(&mut out, prefix);
    let joined = join_strings(&names(players), ", ");
    push_chars(&mut out, &chars_of(joined.as_str()));
    string_of(&out)
}

/// Splits off the first `n` players (all of them when there are fewer).
fn take_front(players: &mut Vec<Player>, n: usize) -> (r: Vec<Player>)
    ensures
        r@ == old(players)@.take(min_int(n as int, old(players)@.len() as int)),
        final(players)@ == old(players)@.skip(min_int(n as int, old(players)@.len() as int)),
{
    let ghost orig = players@;
    let mut r: Vec<Player> = Vec::new();
    assert(orig.skip(0) == orig);
    while r.len() < n && players.len() > 0
        invariant
            r@.len() <= n,
            r@.len() <= orig.len(),
            r@ == orig.take(r@.len() as int),
            players@ == orig.skip(r@.len() as int),
        decreases players.len(),
    {
        let p = players.remove(0);
        let ghost k = r@.len() as int;
        assert(p == orig[k]);
        r.push(p);
        assert(r@ == orig.take(k + 1));
        assert(players@ == orig.skip(k + 1));
    }
    r
}

/// Lays out the scoreboard of a lobby (see `layout_is`) from its players
/// sorted for the scoreboard.
pub fn scoreboard_layout(players: Vec<Player>, sort_by: SortBy) -> (r: ScoreboardLayout)
    ensures
        exists|sorted: Seq<Player>|
            {
                &&& sorted.len() == players@.len()
                &&& sorted_for_scoreboard(sorted, sort_by)
                &&& forall|k: ScoreKey| #[trigger] with_key(sorted, k) == with_key(players@, k)
                &&& layout_is(r, sorted)
            },
{
    let sorted = sort_for_scoreboard(players, sort_by);
    let ghost sv = sorted@;
    let split = split_teams(sorted);
    let TeamSplit { blu, red, spec, unknown } = split;
    let ghost un = unknown@;
    let unknown_nonempty = unknown.len() > 0;
    let mut unknown_team_line: Option<String> = None;
    let columns = if blu.len() > 0 || red.len() > 0 {
        Some(
            (
                TeamColumn { title: crate::text::str_to_string("Blu"), players: blu },
                TeamColumn { title: crate::text::str_to_string("Red"), players: red },
            ),
        )
    } else if unknown.len() > 0 {
        // Two teams of at most 12 players each; the list is sorted, so the
        // players beyond the first 24 are those with the lowest scores.
        let mut rest = unknown;
        let team1 = take_front(&mut rest, 12);
        let team2 = take_front(&mut rest, 12);
        assert(un.skip(min_int(12, un.len() as int)).take(
            min_int(12, un.len() - min_int(12, un.len() as int)),
        ) == un.subrange(min_int(12, un.len() as int), min_int(24, un.len() as int)));
        if rest.len() > 0 {
            assert(rest@ == un.skip(24));
            unknown_team_line = Some(prefixed_names("Unknown team: ", &rest));
        }
        Some(
            (
                TeamColumn { title: crate::text::str_to_string("Players 1-12"), players: team1 },
                TeamColumn { title: crate::text::str_to_string("Players 13-24"), players: team2 },
            ),
        )
    } else {
        None
    };
    let ghost spec_len = spec@.len();
    let (spectators_line, separator_after_spectators) = if spec.len() > 0 {
        (Some(prefixed_names("Spectators: ", &spec)), unknown_nonempty)
    } else {
        (None, false)
    };
    let r = ScoreboardLayout { columns, unknown_team_line, spectators_line, separator_after_spectators };
    assert(layout_is(r, sv));
    r
}

/// The number of empty rows that pad a scoreboard column to twelve rows.
pub fn filler_rows(num_players: usize) -> (r: usize)
    ensures
        r == (if num_players < 12 {
            12 - num_players
        } else {
            0
        }),
{
    if num_players < 12 {
        12 - num_players
    } else {
        0
    }
}

/// The heading of a scoreboard column: `{title} - {n} players`.
pub fn team_heading(title: &str, num_players: usize) -> (r: String)
    ensures
        r@ == title@ + " - "@ + dec(num_players as nat) + " players"@,
{
    let mut out: Vec<char> = Vec::new();
    push_str(&mut out, title);
    push_str(&mut out, " - ");
    push_chars(&mut out, &decimal_chars(num_players as u64));
    push_str(&mut out, " players");
    string_of(&out)
}


/// The sums of kills, crit kills, deaths and crit deaths over some players.
pub open spec fn sum_kills(s: Seq<Player>) -> int
    decreases s.len(),
{
    if s.len() == 0 { 0 } else { sum_kills(s.drop_last()) + s.last().kills }
}

pub open spec fn sum_crit_kills(s: Seq<Player>) -> int
    decreases s.len(),
{
    if s.len() == 0 { 0 } else { sum_crit_kills(s.drop_last()) + s.last().crit_kills }
}

pub open spec fn sum_deaths(s: Seq<Player>) -> int
    decreases s.len(),
{
    if s.len() == 0 { 0 } else { sum_deaths(s.drop_last()) + s.last().deaths }
}

pub open spec fn sum_crit_deaths(s: Seq<Player>) -> int
    decreases s.len(),
{
    if s.len() == 0 { 0 } else { sum_crit_deaths(s.drop_last()) + s.last().crit_deaths }
}

/// What the line under a column heading counts for the team.
pub struct TeamTotals {
    pub kills: u32,
    pub crit_kills: u32,
    pub deaths: u32,
    pub crit_deaths: u32,
}

proof fn lemma_sums_monotone(s: Seq<Player>, i: int)
    requires
        0 <= i <= s.len(),
    ensures
        sum_kills(s.take(i)) <= sum_kills(s),
        sum_crit_kills(s.take(i)) <= sum_crit_kills(s),
        sum_deaths(s.take(i)) <= sum_deaths(s),
        sum_crit_deaths(s.take(i)) <= sum_crit_deaths(s),
    decreases s.len() - i,
{
    if i < s.len() {
        lemma_sums_monotone(s, i + 1);
        assert(s.take(i + 1).drop_last() == s.take(i));
    } else {
        assert(s.take(i) == s);
    }
}

/// The kills and deaths of a team, each summed over its players (for sums
/// that fit in a `u32`).
pub fn team_totals(players: &Vec<Player>) -> (r: TeamTotals)
    requires
        sum_kills(players@) <= u32::MAX,
        sum_crit_kills(players@) <= u32::MAX,
        sum_deaths(players@) <= u32::MAX,
        sum_crit_deaths(players@) <= u32::MAX,
    ensures
        r.kills == sum_kills(players@),
        r.crit_kills == sum_crit_kills(players@),
        r.deaths == sum_deaths(players@),
        r.crit_deaths == sum_crit_deaths(players@),
{
    let mut t = TeamTotals { kills: 0, crit_kills: 0, deaths: 0, crit_deaths: 0 };
    let mut i: usize = 0;
    while i < players.len()
        invariant
            i <= players.len(),
            sum_kills(players@) <= u32::MAX,
            sum_crit_kills(players@) <= u32::MAX,
            sum_deaths(players@) <= u32::MAX,
            sum_crit_deaths(players@) <= u32::MAX,
            t.kills == sum_kills(players@.take(i as int)),
            t.crit_kills == sum_crit_kills(players@.take(i as int)),
            t.deaths == sum_deaths(players@.take(i as int)),
            t.crit_deaths == sum_crit_deaths(players@.take(i as int)),
        decreases players.len() - i,
    {
        proof {
            assert(players@.take(i as int + 1).drop_last() == players@.take(i as int));
            lemma_sums_monotone(players@, i as int + 1);
        }
        let p = &players[i];
        t.kills = t.kills + p.kills;
        t.crit_kills = t.crit_kills + p.crit_kills;
        t.deaths = t.deaths + p.deaths;
        t.crit_deaths = t.crit_deaths + p.crit_deaths;
        i = i + 1;
    }
    assert(players@.take(players.len() as int) == players@);
    t
}

/// A number written at least three characters wide, padded with spaces on
/// the left (`format!("{:3}", n)`).
pub open spec fn dec3(n: nat) -> Seq<char> {
    let d = dec(n);
    if d.len() >= 3 {
        d
    } else {
        Seq::new((3 - d.len()) as nat, |i: int| ' ') + d
    }
}

fn dec3_string(n: u64) -> (r: String)
    ensures
        r@ == dec3(n as nat),
{
    let d = decimal_chars(n);
    let mut out: Vec<char> = Vec::new();
    let pad: usize = if d.len() >= 3 {
        0
    } else {
        3 - d.len()
    };
    let mut i: usize = 0;
    while i < pad
        invariant
            i <= pad,
            pad == (if d@.len() >= 3 { 0 } else { 3 - d@.len() }),
            out@ == Seq::new(i as nat, |k: int| ' '),
        decreases pad - i,
    {
        out.push(' ');
        i = i + 1;
        assert(out@ =~= Seq::new(i as nat, |k: int| ' '));
    }
    push_chars(&mut out, &d);
    if d.len() >= 3 {
        assert(out@ =~= d@);
    }
    string_of(&out)
}

/// The texts of a player's row on the scoreboard.
pub struct ScoreboardRow {
    /// The kills, three characters wide.
    pub kills: String,
    /// `({crit kills})`, when crits are shown.
    pub crit_kills: Option<String>,
    pub deaths: String,
    /// ` ({crit deaths})`, when crits are shown.
    pub crit_deaths: Option<String>,
    /// The ping in milliseconds.
    pub ping: String,
    /// White for a living player, gray for a dead one.
    pub name_color: NamedColor,
}

pub fn scoreboard_row(player: &Player, show_crits: bool) -> (r: ScoreboardRow)
    ensures
        r.kills@ == dec3(player.kills as nat),
        r.crit_kills matches Some(t) ==> t@ == "("@ + dec(player.crit_kills as nat) + ")"@,
        r.crit_kills is Some == show_crits,
        r.deaths@ == dec(player.deaths as nat),
        r.crit_deaths matches Some(t) ==> t@ == " ("@ + dec(player.crit_deaths as nat) + ")"@,
        r.crit_deaths is Some == show_crits,
        r.ping@ == dec(player.pingms as nat),
        r.name_color == (if player.alive {
            NamedColor::White
        } else {
            NamedColor::Gray
        }),
{
    let (crit_kills, crit_deaths) = if show_crits {
        let mut ck: Vec<char> = Vec::new();
        push_str(&mut ck, "(");
        push_chars(&mut ck, &decimal_chars(player.crit_kills as u64));
        push_str(&mut ck, ")");
        let mut cd: Vec<char> = Vec::new();
        push_str(&mut cd, " (");
        push_chars(&mut cd, &decimal_chars(player.crit_deaths as u64));
        push_str(&mut cd, ")");
        (Some(string_of(&ck)), Some(string_of(&cd)))
    } else {
        (None, None)
    };
    ScoreboardRow {
        kills: dec3_string(player.kills as u64),
        crit_kills,
        deaths: u64_to_string(player.deaths as u64),
        crit_deaths,
        ping: u64_to_string(player.pingms as u64),
        name_color: if player.alive {
            NamedColor::White
        } else {
            NamedColor::Gray
        },
    }
}

/// The line under a column heading: `Kills: {n}` and `Deaths: {n}`, each
/// followed by `({crits})` when crits are shown.
pub struct TotalsLine {
    pub kills: String,
    pub crit_kills: Option<String>,
    pub deaths: String,
    pub crit_deaths: Option<String>,
}

pub fn totals_line(totals: &TeamTotals, show_crits: bool) -> (r: TotalsLine)
    ensures
        r.kills@ == "Kills: "@ + dec(totals.kills as nat),
        r.crit_kills is Some == show_crits,
        r.crit_kills matches Some(t) ==> t@ == "("@ + dec(totals.crit_kills as nat) + ")"@,
        r.deaths@ == "Deaths: "@ + dec(totals.deaths as nat),
        r.crit_deaths is Some == show_crits,
        r.crit_deaths matches Some(t) ==> t@ == "("@ + dec(totals.crit_deaths as nat) + ")"@,
{
    let mut k: Vec<char> = Vec::new();
    push_str(&mut k, "Kills: ");
    push_chars(&mut k, &decimal_chars(totals.kills as u64));
    let mut d: Vec<char> = Vec::new();
    push_str(&mut d, "Deaths: ");
    push_chars(&mut d, &decimal_chars(totals.deaths as u64));
    let (crit_kills, crit_deaths) = if show_crits {
        let mut ck: Vec<char> = Vec::new();
        push_str(&mut ck, "(");
        push_chars(&mut ck, &decimal_chars(totals.crit_kills as u64));
        push_str(&mut ck, ")");
        let mut cd: Vec<char> = Vec::new();
        push_str(&mut cd, "(");
        push_chars(&mut cd, &decimal_chars(totals.crit_deaths as u64));
        push_str(&mut cd, ")");
        (Some(string_of(&ck)), Some(string_of(&cd)))
    } else {
        (None, None)
    };
    TotalsLine { kills: string_of(&k), crit_kills, deaths: string_of(&d), crit_deaths }
}

/// The status line under the window: `Lobby: {n} players, {m} chat`.
pub fn lobby_status_line(num_players: usize, num_feed_items: usize) -> (r: String)
    ensures
        r@ == "Lobby: "@ + dec(num_players as nat) + " players, "@ + dec(num_feed_items as nat) + " chat"@,
{
    let mut out: Vec<char> = Vec::new();
    push_str(&mut out, "Lobby: ");
    push_chars(&mut out, &decimal_chars(num_players as u64));
    push_str(&mut out, " players, ");
    push_chars(&mut out, &decimal_chars(num_feed_items as u64));
    push_str(&mut out, " chat");
    string_of(&out)
}

} // verus!

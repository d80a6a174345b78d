//! The scoreboard: the order of players, and how they are laid out in teams.
use crate::reputation::Reputation;
use crate::steamid::SteamID;
use crate::text::{chars_of, lemma_str_lt_asymmetric, lemma_str_lt_irreflexive, lemma_str_lt_total, lemma_str_lt_transitive, str_lt, str_lt_exec};
use std::cmp::Ordering;
use vstd::prelude::*;

verus! {

/// The team of a player, in the order the scoreboard sorts teams.
#[derive(Debug, Clone, Copy, PartialEq, Eq, Structural)]
pub enum Team {
    Blue,
    Red,
    Spec,
    Unknown,
}

/// What the scoreboard sorts the players of a team by first.
#[derive(Debug, Clone, Copy, PartialEq, Eq, Structural)]
pub enum SortBy {
    Score,
    Kills,
}

/// A player in the lobby, as far as the scoreboard reads it.
#[derive(Debug, Clone)]
pub struct Player {
    /// The player's number on the server (used in kick votes).
    pub id: u32,
    pub steamid: SteamID,
    pub name: String,
    pub team: Team,
    pub score: u32,
    pub kills: u32,
    pub deaths: u32,
    pub crit_kills: u32,
    pub crit_deaths: u32,
    pub pingms: u32,
    pub alive: bool,
    pub reputation: Option<Reputation>,
}

/// The outcome of comparing two players.
#[derive(Debug, Clone, Copy, PartialEq, Eq, Structural)]
pub enum SortOrder {
    Less,
    Equal,
    Greater,
}

/// What the scoreboard order looks at in a player.
pub struct ScoreKey {
    pub team: Team,
    pub score: u32,
    pub kills: u32,
    pub deaths: u32,
    pub name: Seq<char>,
}

pub open spec fn key_of(p: Player) -> ScoreKey {
    ScoreKey { team: p.team, score: p.score, kills: p.kills, deaths: p.deaths, name: p.name@ }
}

pub open spec fn team_rank(t: Team) -> int {
    match t {
        Team::Blue => 0,
        Team::Red => 1,
        Team::Spec => 2,
        Team::Unknown => 3,
    }
}

/// Ascending order of two numbers.
pub open spec fn ascending(a: int, b: int) -> SortOrder {
    if a < b {
        SortOrder::Less
    } else if a == b {
        SortOrder::Equal
    } else {
        SortOrder::Greater
    }
}

pub open spec fn name_order(a: Seq<char>, b: Seq<char>) -> SortOrder {
    if a == b {
        SortOrder::Equal
    } else if str_lt(a, b) {
        SortOrder::Less
    } else {
        SortOrder::Greater
    }
}

/// Fewer deaths first, then by name.
pub open spec fn tie_order(a: ScoreKey, b: ScoreKey) -> SortOrder {
    if a.deaths != b.deaths {
        ascending(a.deaths as int, b.deaths as int)
    } else {
        name_order(a.name, b.name)
    }
}

/// The scoreboard order: by team; within a team by score (then kills) or by
/// kills (then score), higher first; then fewer deaths first; then by name.
pub open spec fn key_order(a: ScoreKey, b: ScoreKey, sort_by: SortBy) -> SortOrder {
    if a.team != b.team {
        ascending(team_rank(a.team), team_rank(b.team))
    } else {
        match sort_by {
            SortBy::Score => if a.score != b.score {
                ascending(b.score as int, a.score as int)
            } else if a.kills != b.kills {
                ascending(b.kills as int, a.kills as int)
            } else {
                tie_order(a, b)
            },
            SortBy::Kills => if a.kills != b.kills {
                ascending(b.kills as int, a.kills as int)
            } else if a.score != b.score {
                ascending(b.score as int, a.score as int)
            } else {
                tie_order(a, b)
            },
        }
    }
}

pub open spec fn player_order(a: Player, b: Player, sort_by: SortBy) -> SortOrder {
    key_order(key_of(a), key_of(b), sort_by)
}

pub open spec fn flip(o: SortOrder) -> SortOrder {
    match o {
        SortOrder::Less => SortOrder::Greater,
        SortOrder::Equal => SortOrder::Equal,
        SortOrder::Greater => SortOrder::Less,
    }
}

proof fn lemma_name_order(a: Seq<char>, b: Seq<char>, c: Seq<char>)
    ensures
        name_order(a, b) == flip(name_order(b, a)),
        name_order(a, b) != SortOrder::Greater && name_order(b, c) != SortOrder::Greater
            ==> name_order(a, c) != SortOrder::Greater,
        name_order(a, b) == SortOrder::Less && name_order(b, c) != SortOrder::Greater
            ==> name_order(a, c) == SortOrder::Less,
        name_order(a, b) != SortOrder::Greater && name_order(b, c) == SortOrder::Less
            ==> name_order(a, c) == SortOrder::Less,
{
    if a != b {
        lemma_str_lt_total(a, b);
        if str_lt(a, b) {
            lemma_str_lt_asymmetric(a, b);
        } else {
            lemma_str_lt_asymmetric(b, a);
        }
    }
    if str_lt(a, b) && str_lt(b, c) {
        lemma_str_lt_transitive(a, b, c);
    }
    if a == c && str_lt(a, b) && str_lt(b, c) {
        lemma_str_lt_irreflexive(a);
    }
    if str_lt(a, b) && a == c && b != c {
        lemma_str_lt_total(b, c);
        if str_lt(b, c) {
            lemma_str_lt_transitive(a, b, c);
            lemma_str_lt_irreflexive(a);
        }
    }
    if str_lt(b, c) && a == c && a != b {
        lemma_str_lt_total(a, b);
        if str_lt(a, b) {
            lemma_str_lt_transitive(a, b, c);
            lemma_str_lt_irreflexive(a);
        }
    }
}

/// The scoreboard order compares two players the opposite way round when
/// they are swapped.
pub proof fn law_order_antisymmetric(a: Player, b: Player, sort_by: SortBy)
    ensures
        player_order(a, b, sort_by) == flip(player_order(b, a, sort_by)),
{
    lemma_name_order(a.name@, b.name@, b.name@);
}

/// Two players compare equal exactly when the scoreboard cannot tell them
/// apart: same team, score, kills, deaths and name.
pub proof fn law_order_equal_iff_same_key(a: Player, b: Player, sort_by: SortBy)
    ensures
        (player_order(a, b, sort_by) == SortOrder::Equal) <==> (key_of(a) == key_of(b)),
{
}

/// The scoreboard order is transitive.
pub proof fn law_order_transitive(a: Player, b: Player, c: Player, sort_by: SortBy)
    ensures
        player_order(a, b, sort_by) != SortOrder::Greater && player_order(b, c, sort_by)
            != SortOrder::Greater ==> player_order(a, c, sort_by) != SortOrder::Greater,
        player_order(a, b, sort_by) == SortOrder::Less && player_order(b, c, sort_by)
            != SortOrder::Greater ==> player_order(a, c, sort_by) == SortOrder::Less,
        player_order(a, b, sort_by) != SortOrder::Greater && player_order(b, c, sort_by)
            == SortOrder::Less ==> player_order(a, c, sort_by) == SortOrder::Less,
{
    lemma_name_order(a.name@, b.name@, c.name@);
}

/// Within a team, in either sort mode, players with the same score and the
/// same kills come in order of their deaths, fewer first, and with equal
/// deaths in order of their names.
pub proof fn law_order_ties_by_deaths_then_name(a: Player, b: Player, sort_by: SortBy)
    requires
        a.team == b.team,
        a.score == b.score,
        a.kills == b.kills,
    ensures
        player_order(a, b, sort_by) == (if a.deaths < b.deaths {
            SortOrder::Less
        } else if a.deaths > b.deaths {
            SortOrder::Greater
        } else if a.name@ == b.name@ {
            SortOrder::Equal
        } else if str_lt(a.name@, b.name@) {
            SortOrder::Less
        } else {
            SortOrder::Greater
        }),
{
}

/// Within a team the sort mode's count decides first, higher first: the
/// score when sorting by score, the kills when sorting by kills; and with
/// that count equal, the other one, higher first.
pub proof fn law_order_by_mode(a: Player, b: Player)
    requires
        a.team == b.team,
    ensures
        a.score > b.score ==> player_order(a, b, SortBy::Score) == SortOrder::Less,
        a.score == b.score && a.kills > b.kills ==> player_order(a, b, SortBy::Score) == SortOrder::Less,
        a.kills > b.kills ==> player_order(a, b, SortBy::Kills) == SortOrder::Less,
        a.kills == b.kills && a.score > b.score ==> player_order(a, b, SortBy::Kills) == SortOrder::Less,
{
}

/// Teams come in the order Blu, Red, spectators, unknown, in either mode.
pub proof fn law_order_by_team(a: Player, b: Player, sort_by: SortBy)
    ensures
        a.team == Team::Blue && b.team != Team::Blue ==> player_order(a, b, sort_by) == SortOrder::Less,
        a.team == Team::Red && (b.team == Team::Spec || b.team == Team::Unknown) ==> player_order(a, b, sort_by)
            == SortOrder::Less,
        a.team == Team::Spec && b.team == Team::Unknown ==> player_order(a, b, sort_by) == SortOrder::Less,
{
}

/// The number of a `std::cmp::Ordering`'s variant in `SortOrder`.
pub open spec fn sort_order_of(o: Ordering) -> SortOrder {
    match o {
        Ordering::Less => SortOrder::Less,
        Ordering::Equal => SortOrder::Equal,
        Ordering::Greater => SortOrder::Greater,
    }
}

fn team_number(t: Team) -> (r: u8)
    ensures
        r == team_rank(t),
{
    match t {
        Team::Blue => 0,
        Team::Red => 1,
        Team::Spec => 2,
        Team::Unknown => 3,
    }
}

pub open spec fn ascending_u32_spec(a: u32, b: u32) -> SortOrder {
    ascending(a as int, b as int)
}

fn ascending_u32(a: u32, b: u32) -> (r: Ordering)
    ensures
        sort_order_of(r) == ascending_u32_spec(a, b),
{
    if a < b {
        Ordering::Less
    } else if a == b {
        Ordering::Equal
    } else {
        Ordering::Greater
    }
}

/// Compares two players for the scoreboard (see `key_order`).
pub fn cmp_for_scoreboard(a: &Player, b: &Player, sort_by: SortBy) -> (r: Ordering)
    ensures
        sort_order_of(r) == player_order(*a, *b, sort_by),
{
    // Sort by team first, then by selected sort method, then by secondary criteria
    if a.team != b.team {
        let ta = team_number(a.team);
        let tb = team_number(b.team);
        return if ta < tb {
            Ordering::Less
        } else {
            Ordering::Greater
        };
    }
    match sort_by {
        SortBy::Score => {
            if a.score != b.score {
                return ascending_u32(b.score, a.score);
            }
            // If scores are equal, sort by kills as secondary
            if a.kills != b.kills {
                return ascending_u32(b.kills, a.kills);
            }
        },
        SortBy::Kills => {
            if a.kills != b.kills {
                return ascending_u32(b.kills, a.kills);
            }
            // If kills are equal, sort by score as secondary
            if a.score != b.score {
                return ascending_u32(b.score, a.score);
            }
        },
    }
    // If primary and secondary are equal, sort by deaths (ascending), then name
    if a.deaths != b.deaths {
        return ascending_u32(a.deaths, b.deaths);
    }
    let na = chars_of(a.name.as_str());
    let nb = chars_of(b.name.as_str());
    if crate::text::chars_eq(&na, &nb) {
        Ordering::Equal
    } else if str_lt_exec(&na, &nb) {
        Ordering::Less
    } else {
        Ordering::Greater
    }
}

/// Every player comes no later than the next ones in the scoreboard order.
pub open spec fn sorted_for_scoreboard(s: Seq<Player>, sort_by: SortBy) -> bool {
    forall|i: int, j: int|
        0 <= i < j < s.len() ==> player_order(#[trigger] s[i], #[trigger] s[j], sort_by)
            != SortOrder::Greater
}

/// The players of `s` whose scoreboard key is `k`, in the order of `s`.
pub open spec fn with_key(s: Seq<Player>, k: ScoreKey) -> Seq<Player>
    decreases s.len(),
{
    if s.len() == 0 {
        Seq::empty()
    } else {
        let rest = with_key(s.drop_last(), k);
        if key_of(s.last()) == k {
            rest.push(s.last())
        } else {
            rest
        }
    }
}

proof fn lemma_with_key_append(a: Seq<Player>, b: Seq<Player>, k: ScoreKey)
    ensures
        with_key(a + b, k) == with_key(a, k) + with_key(b, k),
    decreases b.len(),
{
    if b.len() == 0 {
        assert(a + b == a);
        assert(with_key(a, k) + Seq::<Player>::empty() == with_key(a, k));
    } else {
        assert((a + b).drop_last() == a + b.drop_last());
        assert((a + b).last() == b.last());
        lemma_with_key_append(a, b.drop_last(), k);
        if key_of(b.last()) == k {
            assert(with_key(a, k) + with_key(b.drop_last(), k).push(b.last()) == (with_key(a, k)
                + with_key(b.drop_last(), k)).push(b.last()));
        }
    }
}

proof fn lemma_with_key_none(s: Seq<Player>, k: ScoreKey)
    requires
        forall|i: int| 0 <= i < s.len() ==> key_of(#[trigger] s[i]) != k,
    ensures
        with_key(s, k) == Seq::<Player>::empty(),
    decreases s.len(),
{
    if s.len() > 0 {
        lemma_with_key_none(s.drop_last(), k);
    }
}

proof fn lemma_with_key_single(p: Player, k: ScoreKey)
    ensures
        with_key(seq![p], k) == (if key_of(p) == k {
            seq![p]
        } else {
            Seq::<Player>::empty()
        }),
{
    assert(seq![p].drop_last() == Seq::<Player>::empty());
    assert(seq![p].last() == p);
    assert(with_key(Seq::<Player>::empty(), k) == Seq::<Player>::empty());
    assert(Seq::<Player>::empty().push(p) == seq![p]);
}

proof fn lemma_insert_keeps_order(s: Seq<Player>, p: Player, j: int, sort_by: SortBy)
    requires
        0 <= j <= s.len(),
        sorted_for_scoreboard(s, sort_by),
        forall|i: int| 0 <= i < j ==> player_order(#[trigger] s[i], p, sort_by) != SortOrder::Greater,
        j < s.len() ==> player_order(s[j], p, sort_by) == SortOrder::Greater,
    ensures
        sorted_for_scoreboard(s.insert(j, p), sort_by),
        forall|m: int| j <= m < s.len() ==> player_order(p, #[trigger] s[m], sort_by) == SortOrder::Less,
{
    assert forall|m: int| j <= m < s.len() implies player_order(p, #[trigger] s[m], sort_by)
        == SortOrder::Less by {
        law_order_antisymmetric(s[j], p, sort_by);
        if m > j {
            law_order_transitive(p, s[j], s[m], sort_by);
        }
    }
    let t = s.insert(j, p);
    assert forall|a: int, b: int| 0 <= a < b < t.len() implies player_order(
        #[trigger] t[a],
        #[trigger] t[b],
        sort_by,
    ) != SortOrder::Greater by {
        if b < j {
            assert(t[a] == s[a] && t[b] == s[b]);
        } else if b == j {
            assert(t[a] == s[a]);
        } else if a < j {
            assert(t[a] == s[a] && t[b] == s[b - 1]);
            assert(player_order(p, s[b - 1], sort_by) == SortOrder::Less);
            law_order_transitive(s[a], p, s[b - 1], sort_by);
        } else if a == j {
            assert(t[b] == s[b - 1]);
            assert(player_order(p, s[b - 1], sort_by) == SortOrder::Less);
        } else {
            assert(t[a] == s[a - 1] && t[b] == s[b - 1]);
        }
    }
}

proof fn lemma_insert_with_key(s: Seq<Player>, p: Player, j: int, before: Seq<Player>, sort_by: SortBy)
    requires
        0 <= j <= s.len(),
        forall|m: int| j <= m < s.len() ==> player_order(p, #[trigger] s[m], sort_by) == SortOrder::Less,
        forall|k: ScoreKey| #[trigger] with_key(s, k) == with_key(before, k),
    ensures
        forall|k: ScoreKey| #[trigger] with_key(s.insert(j, p), k) == with_key(before.push(p), k),
{
    assert forall|k: ScoreKey| #[trigger] with_key(s.insert(j, p), k) == with_key(before.push(p), k) by {
        let pre = s.take(j);
        let post = s.skip(j);
        assert(s == pre + post);
        assert(s.insert(j, p) == pre + seq![p] + post);
        assert(before.push(p) == before + seq![p]);
        lemma_with_key_append(pre, post, k);
        lemma_with_key_append(pre + seq![p], post, k);
        lemma_with_key_append(pre, seq![p], k);
        lemma_with_key_append(before, seq![p], k);
        lemma_with_key_single(p, k);
        if key_of(p) == k {
            assert forall|i: int| 0 <= i < post.len() implies key_of(#[trigger] post[i]) != k by {
                assert(post[i] == s[j + i]);
                law_order_equal_iff_same_key(p, s[j + i], sort_by);
            }
            lemma_with_key_none(post, k);
            assert(with_key(pre, k) + Seq::<Player>::empty() == with_key(pre, k));
        } else {
            assert(with_key(pre, k) + Seq::<Player>::empty() == with_key(pre, k));
            assert(with_key(before, k) + Seq::<Player>::empty() == with_key(before, k));
        }
    }
}

fn goes_before(a: &Player, b: &Player, sort_by: SortBy) -> (r: bool)
    ensures
        r == (player_order(*a, *b, sort_by) != SortOrder::Greater),
{
    match cmp_for_scoreboard(a, b, sort_by) {
        Ordering::Greater => false,
        _ => true,
    }
}

/// Sorts the players for the scoreboard, keeping players that the order
/// cannot tell apart in the order they came in (a stable sort, as
/// `slice::sort_by` is).
pub fn sort_for_scoreboard(players: Vec<Player>, sort_by: SortBy) -> (r: Vec<Player>)
    ensures
        r@.len() == players@.len(),
        sorted_for_scoreboard(r@, sort_by),
        forall|k: ScoreKey| #[trigger] with_key(r@, k) == with_key(players@, k),
{
    let ghost orig = players@;
    let mut input = players;
    let mut out: Vec<Player> = Vec::new();
    let ghost mut n: int = 0;
    assert(orig.skip(0) == orig);
    while input.len() > 0
        invariant
            0 <= n <= orig.len(),
            input@ == orig.skip(n),
            out@.len() == n,
            sorted_for_scoreboard(out@, sort_by),
            forall|k: ScoreKey| #[trigger] with_key(out@, k) == with_key(orig.take(n), k),
        decreases input.len(),
    {
        let p = input.remove(0);
        assert(p == orig[n]);
        assert(input@ == orig.skip(n + 1));
        let mut j: usize = 0;
        while j < out.len() && goes_before(&out[j], &p, sort_by)
            invariant
                j <= out.len(),
                forall|i: int| 0 <= i < j ==> player_order(#[trigger] out@[i], p, sort_by) != SortOrder::Greater,
            decreases out.len() - j,
        {
            j = j + 1;
        }
        let ghost old_out = out@;
        proof {
            lemma_insert_keeps_order(old_out, p, j as int, sort_by);
            lemma_insert_with_key(old_out, p, j as int, orig.take(n), sort_by);
            assert(orig.take(n + 1) == orig.take(n).push(p));
        }
        out.insert(j, p);
        proof {
            n = n + 1;
        }
    }
    assert(orig.take(n) == orig);
    out
}

} // verus!

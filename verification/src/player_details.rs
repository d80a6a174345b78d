//! What the details of a player show: the kick votes that can be called on
//! the player, and the SourceBans entries found for the player.
use crate::reputation::Reputation;
use crate::scoreboard::Player;
use crate::steamid::{steam_id32_text, SteamID, MIN_STEAMID64};
use crate::sourcebans::{bans_view, BanView, SourceBan};
use crate::text::{
    chars_of, dec, decimal_chars, join, lemma_str_lt_irreflexive, lemma_str_lt_total,
    lemma_str_lt_transitive, push_chars, push_str, str_le, str_lt, str_lt_exec, string_of,
};
use vstd::prelude::*;

verus! {

/// Why a kick vote is called.
#[derive(Debug, Clone, Copy, PartialEq, Eq, Structural)]
pub enum KickReason {
    Cheating,
    Idle,
    Scamming,
}

pub open spec fn kick_reason_word(reason: KickReason) -> Seq<char> {
    match reason {
        KickReason::Cheating => "cheating"@,
        KickReason::Idle => "idle"@,
        KickReason::Scamming => "scamming"@,
    }
}

/// The console command that calls a vote to kick the player with server
/// number `player_id`: `callvote kick "{id} {reason}"`.
pub open spec fn kick_vote_text(player_id: u32, reason: KickReason) -> Seq<char> {
    "callvote kick \""@ + dec(player_id as nat) + " "@ + kick_reason_word(reason) + "\""@
}

pub fn kick_vote_command(player_id: u32, reason: KickReason) -> (r: String)
    ensures
        r@ == kick_vote_text(player_id, reason),
{
    let mut out: Vec<char> = Vec::new();
    push_str(&mut out, "callvote kick \"");
    push_chars(&mut out, &decimal_chars(player_id as u64));
    push_str(&mut out, " ");
    match reason {
        KickReason::Cheating => push_str(&mut out, "cheating"),
        KickReason::Idle => push_str(&mut out, "idle"),
        KickReason::Scamming => push_str(&mut out, "scamming"),
    }
    push_str(&mut out, "\"");
    string_of(&out)
}

/// Bans in order of their source's name (`str`'s `Ord`).
pub open spec fn sorted_by_source(s: Seq<BanView>) -> bool {
    forall|i: int, j: int| 0 <= i < j < s.len() ==> str_le(#[trigger] s[i].source, #[trigger] s[j].source)
}

/// The bans of `s` from source `source`, in the order of `s`.
pub open spec fn with_source(s: Seq<BanView>, source: Seq<char>) -> Seq<BanView>
    decreases s.len(),
{
    if s.len() == 0 {
        Seq::empty()
    } else {
        let rest = with_source(s.drop_last(), source);
        if s.last().source == source {
            rest.push(s.last())
        } else {
            rest
        }
    }
}

proof fn lemma_with_source_append(a: Seq<BanView>, b: Seq<BanView>, k: Seq<char>)
    ensures
        with_source(a + b, k) == with_source(a, k) + with_source(b, k),
    decreases b.len(),
{
    if b.len() == 0 {
        assert(a + b == a);
        assert(with_source(a, k) + Seq::<BanView>::empty() == with_source(a, k));
    } else {
        assert((a + b).drop_last() == a + b.drop_last());
        assert((a + b).last() == b.last());
        lemma_with_source_append(a, b.drop_last(), k);
        if b.last().source == k {
            assert(with_source(a, k) + with_source(b.drop_last(), k).push(b.last()) == (with_source(
                a,
                k,
            ) + with_source(b.drop_last(), k)).push(b.last()));
        }
    }
}

proof fn lemma_with_source_none(s: Seq<BanView>, k: Seq<char>)
    requires
        forall|i: int| 0 <= i < s.len() ==> (#[trigger] s[i]).source != k,
    ensures
        with_source(s, k) == Seq::<BanView>::empty(),
    decreases s.len(),
{
    if s.len() > 0 {
        lemma_with_source_none(s.drop_last(), k);
    }
}

proof fn lemma_with_source_single(b: BanView, k: Seq<char>)
    ensures
        with_source(seq![b], k) == (if b.source == k {
            seq![b]
        } else {
            Seq::<BanView>::empty()
        }),
{
    assert(seq![b].drop_last() == Seq::<BanView>::empty());
    assert(seq![b].last() == b);
    assert(with_source(Seq::<BanView>::empty(), k) == Seq::<BanView>::empty());
    assert(Seq::<BanView>::empty().push(b) == seq![b]);
}

proof fn lemma_str_le_lt(a: Seq<char>, b: Seq<char>, c: Seq<char>)
    requires
        str_lt(a, b),
        str_le(b, c),
    ensures
        str_lt(a, c),
{
    if b != c {
        lemma_str_lt_transitive(a, b, c);
    }
}

proof fn lemma_le_le(a: Seq<char>, b: Seq<char>, c: Seq<char>)
    requires
        str_le(a, b),
        str_le(b, c),
    ensures
        str_le(a, c),
{
    if a != b && b != c {
        lemma_str_lt_transitive(a, b, c);
    }
}

proof fn lemma_insert_by_source(s: Seq<BanView>, b: BanView, j: int, before: Seq<BanView>)
    requires
        0 <= j <= s.len(),
        sorted_by_source(s),
        forall|i: int| 0 <= i < j ==> str_le((#[trigger] s[i]).source, b.source),
        j < s.len() ==> str_lt(b.source, s[j].source),
        forall|k: Seq<char>| #[trigger] with_source(s, k) == with_source(before, k),
    ensures
        sorted_by_source(s.insert(j, b)),
        forall|k: Seq<char>| #[trigger] with_source(s.insert(j, b), k) == with_source(before.push(b), k),
{
    assert forall|m: int| j <= m < s.len() implies str_lt(b.source, (#[trigger] s[m]).source) by {
        if m > j {
            lemma_str_le_lt(b.source, s[j].source, s[m].source);
        }
    }
    let t = s.insert(j, b);
    assert forall|x: int, y: int| 0 <= x < y < t.len() implies str_le(
        #[trigger] t[x].source,
        #[trigger] t[y].source,
    ) by {
        if y < j {
            assert(t[x] == s[x] && t[y] == s[y]);
        } else if y == j {
            assert(t[x] == s[x]);
        } else if x < j {
            assert(t[x] == s[x] && t[y] == s[y - 1]);
            lemma_le_le(s[x].source, b.source, s[y - 1].source);
        } else if x == j {
            assert(t[y] == s[y - 1]);
        } else {
            assert(t[x] == s[x - 1] && t[y] == s[y - 1]);
        }
    }
    assert forall|k: Seq<char>| #[trigger] with_source(s.insert(j, b), k) == with_source(
        before.push(b),
        k,
    ) by {
        let pre = s.take(j);
        let post = s.skip(j);
        assert(s == pre + post);
        assert(s.insert(j, b) == pre + seq![b] + post);
        assert(before.push(b) == before + seq![b]);
        lemma_with_source_append(pre, post, k);
        lemma_with_source_append(pre + seq![b], post, k);
        lemma_with_source_append(pre, seq![b], k);
        lemma_with_source_append(before, seq![b], k);
        lemma_with_source_single(b, k);
        if b.source == k {
            assert forall|i: int| 0 <= i < post.len() implies (#[trigger] post[i]).source != k by {
                assert(post[i] == s[j + i]);
                lemma_str_lt_irreflexive(k);
            }
            lemma_with_source_none(post, k);
            assert(with_source(pre, k) + Seq::<BanView>::empty() == with_source(pre, k));
        } else {
            assert(with_source(pre, k) + Seq::<BanView>::empty() == with_source(pre, k));
            assert(with_source(before, k) + Seq::<BanView>::empty() == with_source(before, k));
        }
    }
}

fn clone_ban(b: &SourceBan) -> (r: SourceBan)
    ensures
        r@ == b@,
{
    SourceBan {
        source: b.source.clone(),
        steamid: b.steamid,
        when: b.when.clone(),
        ban_length: b.ban_length.clone(),
        reason: b.reason.clone(),
    }
}

/// The bans in order of their source's name, bans of one source kept in the
/// order they came in (a stable sort, as `slice::sort_by_key` is).
pub fn sort_bans_by_source(bans: &Vec<SourceBan>) -> (r: Vec<SourceBan>)
    ensures
        r@.len() == bans@.len(),
        sorted_by_source(bans_view(r@)),
        forall|k: Seq<char>| #[trigger] with_source(bans_view(r@), k) == with_source(bans_view(bans@), k),
{
    let ghost orig = bans_view(bans@);
    let mut out: Vec<SourceBan> = Vec::new();
    let mut n: usize = 0;
    while n < bans.len()
        invariant
            n <= bans@.len(),
            orig == bans_view(bans@),
            out@.len() == n,
            sorted_by_source(bans_view(out@)),
            forall|k: Seq<char>| #[trigger] with_source(bans_view(out@), k) == with_source(orig.take(n as int), k),
        decreases bans@.len() - n,
    {
        let b = clone_ban(&bans[n]);
        assert(b@ == orig[n as int]);
        let bs = chars_of(b.source.as_str());
        let mut j: usize = 0;
        while j < out.len() && !str_lt_exec(&bs, &chars_of(out[j].source.as_str()))
            invariant
                j <= out@.len(),
                bs@ == b.source@,
                forall|i: int| 0 <= i < j ==> str_le((#[trigger] bans_view(out@)[i]).source, b.source@),
            decreases out@.len() - j,
        {
            proof {
                let o = out@[j as int].source@;
                assert(bans_view(out@)[j as int].source == o);
                if o != b.source@ {
                    lemma_str_lt_total(o, b.source@);
                }
            }
            j = j + 1;
        }
        let ghost s = bans_view(out@);
        proof {
            if j < s.len() {
                assert(s[j as int].source == out@[j as int].source@);
            }
            lemma_insert_by_source(s, b@, j as int, orig.take(n as int));
            assert(orig.take(n as int + 1) == orig.take(n as int).push(b@));
        }
        out.insert(j, b);
        assert(bans_view(out@) == s.insert(j as int, b@));
        n = n + 1;
    }
    assert(orig.take(bans@.len() as int) == orig);
    out
}

/// What the SourceBans part of a player's details shows.
pub enum SourceBansStatus {
    /// The reputation is not fetched yet.
    Loading,
    /// No bans were found.
    NoBans,
    /// The bans found, in order of their source.
    Bans(Vec<SourceBan>),
}

/// The SourceBans part of a player's details: the bans, sorted by source,
/// where the reputation is bad and has any; `Loading` while the reputation is
/// not fetched; `NoBans` otherwise.
pub fn sourcebans_status(reputation: Option<&Reputation>) -> (r: SourceBansStatus)
    ensures
        match reputation {
            None => r is Loading,
            Some(rep) => if rep.has_bad_reputation && rep.source_bans@.len() > 0 {
                r matches SourceBansStatus::Bans(bans) && {
                    &&& bans@.len() == rep.source_bans@.len()
                    &&& sorted_by_source(bans_view(bans@))
                    &&& forall|k: Seq<char>| #[trigger] with_source(bans_view(bans@), k) == with_source(bans_view(rep.source_bans@), k)
                }
            } else {
                r is NoBans
            },
        },
{
    match reputation {
        None => SourceBansStatus::Loading,
        Some(rep) => {
            if rep.has_bad_reputation && rep.source_bans.len() > 0 {
                SourceBansStatus::Bans(sort_bans_by_source(&rep.source_bans))
            } else {
                SourceBansStatus::NoBans
            }
        },
    }
}

/// A ban as the SourceBans badge lists it: `- {source} for {reason}`.
pub open spec fn ban_tooltip_line(b: BanView) -> Seq<char> {
    "- "@ + b.source + " for "@ + b.reason
}

pub open spec fn tooltip_lines(bans: Seq<BanView>) -> Seq<Seq<char>> {
    bans.map_values(|b: BanView| ban_tooltip_line(b))
}

/// The tooltip of the SourceBans badge, shown where the reputation is bad:
/// `SourceBans:` and a line for each ban, in the order found.
pub fn sourcebans_tooltip(reputation: &Reputation) -> (r: Option<String>)
    ensures
        match r {
            None => !reputation.has_bad_reputation,
            Some(t) => reputation.has_bad_reputation && t@ == "SourceBans:\n"@ + join(
                tooltip_lines(bans_view(reputation.source_bans@)),
                "\n"@,
            ),
        },
{
    if !reputation.has_bad_reputation {
        return None;
    }
    let ghost lines = tooltip_lines(bans_view(reputation.source_bans@));
    let mut out: Vec<char> = Vec::new();
    push_str(&mut out, "SourceBans:\n");
    let ghost head = out@;
    let mut i: usize = 0;
    while i < reputation.source_bans.len()
        invariant
            i <= reputation.source_bans@.len(),
            lines == tooltip_lines(bans_view(reputation.source_bans@)),
            out@ == head + join(lines.take(i as int), "\n"@),
        decreases reputation.source_bans@.len() - i,
    {
        let ghost before = out@;
        let ban = &reputation.source_bans[i];
        assert(lines.take(i + 1).drop_last() == lines.take(i as int));
        assert(lines.take(i + 1).last() == ban_tooltip_line(ban@));
        if i > 0 {
            push_str(&mut out, "\n");
        } else {
            assert(lines.take(0) =~= Seq::<Seq<char>>::empty());
        }
        push_str(&mut out, "- ");
        push_str(&mut out, ban.source.as_str());
        push_str(&mut out, " for ");
        push_str(&mut out, ban.reason.as_str());
        i = i + 1;
        if i == 1 {
            assert(out@ == before + ban_tooltip_line(ban@));
        } else {
            assert(out@ == before + "\n"@ + ban_tooltip_line(ban@));
        }
    }
    assert(lines.take(reputation.source_bans@.len() as int) == lines);
    Some(string_of(&out))
}

/// The title of a player's details window: `Player Details - {name}` while
/// the player is found (in the lobby or among those who left), else with the
/// SteamID64 in place of the name.
pub fn player_window_title(player: Option<&Player>, steamid: SteamID) -> (r: String)
    ensures
        r@ == "Player Details - "@ + match player {
            Some(p) => p.name@,
            None => dec(steamid@ as nat),
        },
{
    let mut out: Vec<char> = Vec::new();
    push_str(&mut out, "Player Details - ");
    match player {
        Some(p) => push_str(&mut out, p.name.as_str()),
        None => push_chars(&mut out, &decimal_chars(steamid.to_u64())),
    }
    string_of(&out)
}

/// What the details show for a SteamID of no known player:
/// `Player with SteamID {id} not found.`.
pub fn player_not_found_text(steamid: SteamID) -> (r: String)
    ensures
        r@ == "Player with SteamID "@ + dec(steamid@ as nat) + " not found."@,
{
    let mut out: Vec<char> = Vec::new();
    push_str(&mut out, "Player with SteamID ");
    push_chars(&mut out, &decimal_chars(steamid.to_u64()));
    push_str(&mut out, " not found.");
    string_of(&out)
}

/// The heading of a player's details: `{name} ({server number})`.
pub fn player_heading(player: &Player) -> (r: String)
    ensures
        r@ == player.name@ + " ("@ + dec(player.id as nat) + ")"@,
{
    let mut out: Vec<char> = Vec::new();
    push_str(&mut out, player.name.as_str());
    push_str(&mut out, " (");
    push_chars(&mut out, &decimal_chars(player.id as u64));
    push_str(&mut out, ")");
    string_of(&out)
}

/// The two identifier lines of a player's details: `SteamID64: {id}` and
/// `SteamID32: [U:1:{n}]`.
pub fn steamid_labels(steamid: SteamID) -> (r: (String, String))
    requires
        steamid@ >= MIN_STEAMID64,
    ensures
        r.0@ == "SteamID64: "@ + dec(steamid@ as nat),
        r.1@ == "SteamID32: "@ + steam_id32_text(steamid@),
{
    let mut a: Vec<char> = Vec::new();
    push_str(&mut a, "SteamID64: ");
    push_chars(&mut a, &decimal_chars(steamid.to_u64()));
    let mut b: Vec<char> = Vec::new();
    push_str(&mut b, "SteamID32: ");
    push_str(&mut b, steamid.to_steam_id32().as_str());
    (string_of(&a), string_of(&b))
}

} // verus!

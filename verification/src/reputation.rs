//! A player's reputation on the SourceBans sites, the cache of reputations
//! and the decisions around fetching them.
use crate::records::{NewBan, NewBanSource};
use crate::sourcebans::{
    bans_view, fetched_bans, get_source_bans, get_sources, min_len, some_page_malformed, sources_spec,
    MalformedPage, SourceBan, SourceBanParser, SourceBanSource,
};
use crate::scoreboard::Player;
use crate::steamid::SteamID;
use crate::text::{chars_of, contains, contains_exec, str_to_string};
use std::collections::HashMap;
use vstd::prelude::*;

verus! {

broadcast use vstd::std_specs::hash::group_hash_axioms;

#[derive(Debug, Clone)]
pub struct Reputation {
    pub steamid: SteamID,
    pub has_bad_reputation: bool,
    pub source_bans: Vec<SourceBan>,
}

/// The reputation of a player, from the pages fetched for the player on each
/// source of `get_sources` (in that order; `None` where the fetch failed):
/// `MalformedPage` when a page holds an entry whose Steam3 ID is no
/// SteamID32; otherwise `None` when no page could be read, else the bans
/// found, and a bad reputation exactly when there is one.
pub fn get_reputation(steamid: SteamID, pages: &Vec<Option<String>>) -> (r: Result<
    Option<Reputation>,
    MalformedPage,
>)
    ensures
        ({
            let n = min_len(5, pages@.len());
            let (bans, count) = fetched_bans(sources_spec(), pages.deep_view(), n);
            match r {
                Err(_) => some_page_malformed(sources_spec(), pages.deep_view(), n),
                Ok(opt) => {
                    &&& !some_page_malformed(sources_spec(), pages.deep_view(), n)
                    &&& (opt is None <==> count == 0)
                    &&& (opt matches Some(rep) ==> {
                        &&& rep.steamid == steamid
                        &&& bans_view(rep.source_bans@) == bans
                        &&& rep.has_bad_reputation == (bans.len() > 0)
                    })
                },
            }
        }),
{
    let sources = get_sources();
    assert(sources@.len() == 5) by {
        assert(crate::sourcebans::sources_view(sources@).len() == 5);
    }
    let fetched = match get_source_bans(&sources, pages) {
        Ok(f) => f,
        Err(e) => {
            return Err(e);
        },
    };
    if fetched.successful_sources == 0 {
        return Ok(None);
    }
    let source_bans = fetched.bans;
    Ok(Some(Reputation { steamid, has_bad_reputation: source_bans.len() > 0, source_bans }))
}

/// The reputations fetched so far, by SteamID64.
pub struct ReputationCache {
    cache: HashMap<u64, Reputation>,
}

impl View for ReputationCache {
    type V = Map<u64, Reputation>;

    closed spec fn view(&self) -> Map<u64, Reputation> {
        self.cache@
    }
}

impl ReputationCache {
    pub fn new() -> (r: Self)
        ensures
            r@ == Map::<u64, Reputation>::empty(),
    {
        Self { cache: HashMap::new() }
    }

    pub fn get(&self, steamid: SteamID) -> (r: Option<&Reputation>)
        ensures
            match r {
                Some(rep) => self@.contains_key(steamid@) && *rep == self@[steamid@],
                None => !self@.contains_key(steamid@),
            },
    {
        self.cache.get(&steamid.to_u64())
    }

    pub fn set(&mut self, reputation: Reputation)
        ensures
            final(self)@ == old(self)@.insert(reputation.steamid@, reputation),
    {
        let key = reputation.steamid.to_u64();
        self.cache.insert(key, reputation);
    }
}

/// Reading the cache after storing a reputation gives that reputation for its
/// player, and what was there before for every other player.
pub proof fn law_cache_get_after_set(before: Map<u64, Reputation>, rep: Reputation, other: u64)
    requires
        other != rep.steamid@,
    ensures
        before.insert(rep.steamid@, rep).contains_key(rep.steamid@),
        before.insert(rep.steamid@, rep)[rep.steamid@] == rep,
        before.insert(rep.steamid@, rep).contains_key(other) == before.contains_key(other),
        before.contains_key(other) ==> before.insert(rep.steamid@, rep)[other] == before[other],
{
}

/// How long a fetched reputation is trusted: seven days, in seconds.
pub const REPUTATION_MAX_AGE_SECONDS: i64 = 604800;

/// Whether a player's reputation is to be fetched, given when it was last
/// fetched (`None` when never, or when the stored account could not be read)
/// and the time now: when it was never fetched, or fetched more than seven
/// days ago (a reputation fetched at most seven days ago is kept).
pub fn should_fetch_reputation(reputation_fetched: Option<i64>, current_time: i64) -> (r: bool)
    requires
        reputation_fetched matches Some(t) ==> i64::MIN <= current_time - t <= i64::MAX,
    ensures
        r == (match reputation_fetched {
            None => true,
            Some(t) => current_time - t > REPUTATION_MAX_AGE_SECONDS,
        }),
{
    match reputation_fetched {
        Some(t) => {
            let time_since_fetch = current_time - t;
            time_since_fetch > REPUTATION_MAX_AGE_SECONDS
        },
        None => true,
    }
}

/// The Unicode lowercase mapping of a text, as `str::to_lowercase` computes it.
pub uninterp spec fn lowercase(s: Seq<char>) -> Seq<char>;

/// Calls `str::to_lowercase`; the contract names the result (`lowercase`),
/// which depends on the text alone, and states nothing more of it.
#[verifier::external_body]
fn to_lowercase(s: &str) -> (r: String)
    ensures
        r@ == lowercase(s@),
{
    s.to_lowercase()
}

/// Whether a ban length text tells a permanent ban: its lowercase form
/// mentions `permanent` or `never`.
pub open spec fn is_permanent_length(ban_length: Seq<char>) -> bool {
    contains(lowercase(ban_length), "permanent"@) || contains(lowercase(ban_length), "never"@)
}

/// The ban row stored for a ban found on a SourceBans site at `current_time`.
pub fn new_ban_record(ban: &SourceBan, current_time: i64) -> (r: NewBan)
    ensures
        r.steam_id == ban.steamid@ as i64,
        r.source@ == ban.source@,
        r.ban_type@ == "sourcebans"@,
        r.reason matches Some(reason) && reason@ == ban.reason@,
        r.created_date == current_time,
        r.expires_date is None,
        r.permanent == is_permanent_length(ban.ban_length@),
{
    let lower = chars_of(to_lowercase(ban.ban_length.as_str()).as_str());
    let permanent = contains_exec(&lower, &chars_of("permanent")) || contains_exec(
        &lower,
        &chars_of("never"),
    );
    NewBan {
        steam_id: ban.steamid.to_u64() as i64,
        source: ban.source.clone(),
        ban_type: str_to_string("sourcebans"),
        reason: Some(ban.reason.clone()),
        created_date: current_time,
        expires_date: None,
        permanent,
    }
}

/// The ban source row stored for a configured source: active, never checked.
pub fn ban_source_record(source: &SourceBanSource) -> (r: NewBanSource)
    ensures
        r.name@ == source.name@,
        r.url@ == source.url@,
        r.parser@ == (match source.parser {
            SourceBanParser::Ul => "Ul"@,
            SourceBanParser::Table => "Table"@,
        }),
        r.last_checked is None,
        r.active,
{
    let parser = match source.parser {
        SourceBanParser::Ul => str_to_string("Ul"),
        SourceBanParser::Table => str_to_string("Table"),
    };
    NewBanSource {
        name: source.name.clone(),
        url: source.url.clone(),
        parser,
        last_checked: None,
        active: true,
    }
}


/// How many players without a reputation one pass of the reputation loop
/// looks at.
pub const NUM_REPUTATIONS_TO_FETCH: usize = 3;

/// The SteamID64s of the players whose reputation is not known, in lobby order.
pub open spec fn unrated_ids(players: Seq<Player>) -> Seq<u64>
    decreases players.len(),
{
    if players.len() == 0 {
        Seq::empty()
    } else {
        let rest = unrated_ids(players.drop_last());
        if players.last().reputation is None {
            rest.push(players.last().steamid@)
        } else {
            rest
        }
    }
}

/// The first `n` items of a sequence, or all of them where it is shorter.
pub open spec fn first_n(s: Seq<u64>, n: int) -> Seq<u64> {
    if s.len() <= n {
        s
    } else {
        s.take(n)
    }
}

/// The players one pass looks at: the first `NUM_REPUTATIONS_TO_FETCH`
/// players of the lobby whose reputation is not known.
pub open spec fn pass_candidates(players: Seq<Player>) -> Seq<u64> {
    first_n(unrated_ids(players), NUM_REPUTATIONS_TO_FETCH as int)
}

/// Where a pass stops next, from position `from` on: at the first candidate
/// whose reputation is cached, or at once while no reputation was fetched in
/// this pass; at the end where there is none.
pub open spec fn stop_index(candidates: Seq<u64>, from: int, one_fetched: bool, cached: Set<u64>) -> int
    decreases candidates.len() - from,
{
    if from >= candidates.len() || from < 0 {
        candidates.len() as int
    } else if !one_fetched || cached.contains(candidates[from]) {
        from
    } else {
        stop_index(candidates, from + 1, one_fetched, cached)
    }
}

/// What a pass asks of the loop that runs it.
#[derive(Debug, Clone, Copy, PartialEq, Eq, Structural)]
pub enum PassAction {
    /// Send the cached reputation of this player.
    SendCached(SteamID),
    /// Tell (`ReputationPass::checked`) whether this player's reputation is to
    /// be fetched (`should_fetch_reputation`).
    CheckRecent(SteamID),
    /// The pass is over.
    Done,
}

/// One pass of the reputation loop over a lobby: cached reputations are sent
/// again, and at most one reputation is fetched.
pub struct ReputationPass {
    candidates: Vec<SteamID>,
    next: usize,
    one_fetched: bool,
}

/// What a pass is at: its candidates, the position of the next one, and
/// whether a reputation was fetched in it.
pub struct PassView {
    pub candidates: Seq<u64>,
    pub next: int,
    pub one_fetched: bool,
}

pub open spec fn ids_view(ids: Seq<SteamID>) -> Seq<u64> {
    ids.map_values(|id: SteamID| id@)
}

impl View for ReputationPass {
    type V = PassView;

    closed spec fn view(&self) -> PassView {
        PassView { candidates: ids_view(self.candidates@), next: self.next as int, one_fetched: self.one_fetched }
    }
}

impl ReputationPass {
    /// The position of a pass never passes the end of its candidates.
    pub closed spec fn wf(&self) -> bool {
        self.next <= self.candidates@.len()
    }

    /// A pass over the players of a lobby, before its first step.
    pub fn new(players: &Vec<Player>) -> (r: Self)
        ensures
            r.wf(),
            r@.candidates == pass_candidates(players@),
            r@.next == 0,
            !r@.one_fetched,
    {
        let mut candidates: Vec<SteamID> = Vec::new();
        let mut i: usize = 0;
        while i < players.len()
            invariant
                i <= players.len(),
                ids_view(candidates@) == first_n(
                    unrated_ids(players@.take(i as int)),
                    NUM_REPUTATIONS_TO_FETCH as int,
                ),
            decreases players.len() - i,
        {
            let ghost before = unrated_ids(players@.take(i as int));
            assert(players@.take(i as int + 1).drop_last() == players@.take(i as int));
            if players[i].reputation.is_none() && candidates.len() < NUM_REPUTATIONS_TO_FETCH {
                candidates.push(players[i].steamid);
                assert(ids_view(candidates@) == first_n(before, 3).push(players@[i as int].steamid@));
            }
            i = i + 1;
        }
        assert(players@.take(players.len() as int) == players@);
        ReputationPass { candidates, next: 0, one_fetched: false }
    }

    /// The next step of the pass, with what is cached now: it skips the
    /// candidates that are neither cached nor to be asked about (once a
    /// reputation was fetched), and stops at the first one that is, or at the
    /// end.
    pub fn step(&mut self, cache: &ReputationCache) -> (a: PassAction)
        requires
            old(self).wf(),
        ensures
            final(self).wf(),
            final(self)@.candidates == old(self)@.candidates,
            final(self)@.one_fetched == old(self)@.one_fetched,
            ({
                let c = old(self)@.candidates;
                let k = stop_index(c, old(self)@.next, old(self)@.one_fetched, cache@.dom());
                if k == c.len() {
                    a == PassAction::Done && final(self)@.next == k
                } else if cache@.dom().contains(c[k]) {
                    a matches PassAction::SendCached(id) && id@ == c[k] && final(self)@.next == k + 1
                } else {
                    a matches PassAction::CheckRecent(id) && id@ == c[k] && final(self)@.next == k
                }
            }),
    {
        let ghost c = old(self)@.candidates;
        let ghost start = self.next as int;
        assert(c.len() == self.candidates@.len());
        while self.next < self.candidates.len()
            invariant_except_break
                self.wf(),
                self.candidates@ == old(self).candidates@,
                c == ids_view(self.candidates@),
                self.one_fetched == old(self).one_fetched,
                start <= self.next,
                stop_index(c, start, self.one_fetched, cache@.dom()) == stop_index(
                    c,
                    self.next as int,
                    self.one_fetched,
                    cache@.dom(),
                ),
            ensures
                self.wf(),
                self.candidates@ == old(self).candidates@,
                c == ids_view(self.candidates@),
                self.one_fetched == old(self).one_fetched,
                stop_index(c, start, self.one_fetched, cache@.dom()) == self.next,
            decreases self.candidates.len() - self.next,
        {
            let id = self.candidates[self.next];
            assert(c[self.next as int] == id@);
            if cache.get(id).is_some() || !self.one_fetched {
                break;
            }
            self.next = self.next + 1;
        }
        if self.next >= self.candidates.len() {
            return PassAction::Done;
        }
        let id = self.candidates[self.next];
        assert(c[self.next as int] == id@);
        if cache.get(id).is_some() {
            self.next = self.next + 1;
            PassAction::SendCached(id)
        } else {
            PassAction::CheckRecent(id)
        }
    }

    /// The answer to a `CheckRecent`: where the reputation is to be fetched,
    /// and none was fetched in this pass yet, the player whose reputation to
    /// fetch now; the pass moves on to the next candidate either way. Outside
    /// a pending question the pass stays as it is.
    pub fn checked(&mut self, fetch: bool) -> (r: Option<SteamID>)
        requires
            old(self).wf(),
        ensures
            final(self).wf(),
            final(self)@.candidates == old(self)@.candidates,
            ({
                let o = old(self)@;
                if o.next < o.candidates.len() && !o.one_fetched {
                    &&& final(self)@.next == o.next + 1
                    &&& final(self)@.one_fetched == fetch
                    &&& if fetch {
                        r matches Some(id) && id@ == o.candidates[o.next]
                    } else {
                        r is None
                    }
                } else {
                    r is None && final(self)@ == o
                }
            }),
    {
        if self.next < self.candidates.len() && !self.one_fetched {
            let id = self.candidates[self.next];
            assert(old(self)@.candidates[self.next as int] == id@);
            self.next = self.next + 1;
            if fetch {
                self.one_fetched = true;
                Some(id)
            } else {
                None
            }
        } else {
            None
        }
    }
}

/// Once a reputation was fetched in a pass, every later step sends a cached
/// reputation or ends the pass: it never asks about another fetch.
pub proof fn law_one_fetch_per_pass(candidates: Seq<u64>, from: int, cached: Set<u64>)
    requires
        0 <= from <= candidates.len(),
    ensures
        ({
            let k = stop_index(candidates, from, true, cached);
            from <= k <= candidates.len() && (k == candidates.len() || cached.contains(candidates[k]))
        }),
    decreases candidates.len() - from,
{
    if from < candidates.len() && !cached.contains(candidates[from]) {
        law_one_fetch_per_pass(candidates, from + 1, cached);
    }
}

/// The ban rows stored for a fetched reputation at `current_time`, one per
/// ban, in order.
pub fn ban_records(reputation: &Reputation, current_time: i64) -> (r: Vec<NewBan>)
    ensures
        r@.len() == reputation.source_bans@.len(),
        forall|i: int|
            0 <= i < r@.len() ==> {
                let ban = #[trigger] reputation.source_bans@[i];
                &&& r@[i].steam_id == ban.steamid@ as i64
                &&& r@[i].source@ == ban.source@
                &&& r@[i].ban_type@ == "sourcebans"@
                &&& r@[i].reason matches Some(reason) && reason@ == ban.reason@
                &&& r@[i].created_date == current_time
                &&& r@[i].expires_date is None
                &&& r@[i].permanent == is_permanent_length(ban.ban_length@)
            },
{
    let mut r: Vec<NewBan> = Vec::new();
    let mut i: usize = 0;
    while i < reputation.source_bans.len()
        invariant
            i <= reputation.source_bans@.len(),
            r@.len() == i,
            forall|j: int|
                0 <= j < i ==> {
                    let ban = #[trigger] reputation.source_bans@[j];
                    &&& r@[j].steam_id == ban.steamid@ as i64
                    &&& r@[j].source@ == ban.source@
                    &&& r@[j].ban_type@ == "sourcebans"@
                    &&& r@[j].reason matches Some(reason) && reason@ == ban.reason@
                    &&& r@[j].created_date == current_time
                    &&& r@[j].expires_date is None
                    &&& r@[j].permanent == is_permanent_length(ban.ban_length@)
                },
        decreases reputation.source_bans@.len() - i,
    {
        let rec = new_ban_record(&reputation.source_bans[i], current_time);
        r.push(rec);
        i = i + 1;
    }
    r
}

} // verus!

//! Which friendship lines the scoreboard draws between players.
use crate::reputation::ids_view;
use crate::steamid::SteamID;
use vstd::prelude::*;

verus! {

/// A line drawn between two friends on the scoreboard.
#[derive(Debug, Clone, Copy, PartialEq, Eq, Structural)]
pub struct FriendshipLine {
    /// The player the line starts at.
    pub from: SteamID,
    /// The friend it ends at.
    pub to: SteamID,
    /// Which way a line within one team bends: to the other side when the
    /// two SteamIDs differ in their lowest bit.
    pub flipped: bool,
}

pub open spec fn line_view(l: FriendshipLine) -> (u64, u64, bool) {
    (l.from@, l.to@, l.flipped)
}

pub open spec fn lines_view(s: Seq<FriendshipLine>) -> Seq<(u64, u64, bool)> {
    s.map_values(|l: FriendshipLine| line_view(l))
}

/// The players of a lobby with their friends, as SteamID64s.
pub open spec fn friends_view(players: Seq<(SteamID, Vec<SteamID>)>) -> Seq<(u64, Seq<u64>)> {
    players.map_values(|p: (SteamID, Vec<SteamID>)| (p.0@, ids_view(p.1@)))
}

/// Whether the line from player `p` to friend `f` is drawn: each friendship
/// once (from the larger SteamID), none to yourself, none between two of
/// your friends, and only to a player whose mark is on the scoreboard.
pub open spec fn line_drawn(me: u64, my_friends: Seq<u64>, shown: Seq<u64>, p: u64, f: u64) -> bool {
    &&& f <= p
    &&& f != me
    &&& !(my_friends.contains(f) && my_friends.contains(p))
    &&& shown.contains(f)
}

/// The lines from player `p` to its friends, in the order of the friends.
pub open spec fn player_lines(me: u64, my_friends: Seq<u64>, shown: Seq<u64>, p: u64, friends: Seq<u64>) -> Seq<
    (u64, u64, bool),
>
    decreases friends.len(),
{
    if friends.len() == 0 {
        Seq::empty()
    } else {
        let rest = player_lines(me, my_friends, shown, p, friends.drop_last());
        let f = friends.last();
        if line_drawn(me, my_friends, shown, p, f) {
            rest.push((p, f, p % 2 != f % 2))
        } else {
            rest
        }
    }
}

/// The friendship lines of a lobby, player by player in lobby order: none
/// from yourself, and none from a player whose mark is not on the scoreboard.
pub open spec fn lobby_lines(me: u64, my_friends: Seq<u64>, shown: Seq<u64>, players: Seq<(u64, Seq<u64>)>) -> Seq<
    (u64, u64, bool),
>
    decreases players.len(),
{
    if players.len() == 0 {
        Seq::empty()
    } else {
        let rest = lobby_lines(me, my_friends, shown, players.drop_last());
        let (p, friends) = players.last();
        if p != me && shown.contains(p) {
            rest + player_lines(me, my_friends, shown, p, friends)
        } else {
            rest
        }
    }
}

fn has_id(ids: &Vec<SteamID>, id: SteamID) -> (r: bool)
    ensures
        r == ids_view(ids@).contains(id@),
{
    let mut i: usize = 0;
    while i < ids.len()
        invariant
            i <= ids.len(),
            forall|j: int| 0 <= j < i ==> ids@[j]@ != id@,
        decreases ids.len() - i,
    {
        if ids[i].to_u64() == id.to_u64() {
            assert(ids_view(ids@)[i as int] == id@);
            return true;
        }
        i = i + 1;
    }
    assert forall|j: int| 0 <= j < ids_view(ids@).len() implies ids_view(ids@)[j] != id@ by {
        assert(ids_view(ids@)[j] == ids@[j]@);
    }
    false
}

proof fn lemma_lines_push(s: Seq<FriendshipLine>, l: FriendshipLine)
    ensures
        lines_view(s.push(l)) == lines_view(s).push(line_view(l)),
{
    assert(lines_view(s.push(l)) =~= lines_view(s).push(line_view(l)));
}

/// The friendship lines the scoreboard draws (see `lobby_lines`), given your
/// SteamID, your friends, the lobby's players with their friends, and the
/// players whose mark is on the scoreboard.
pub fn friendship_lines(
    me: SteamID,
    my_friends: &Vec<SteamID>,
    players: &Vec<(SteamID, Vec<SteamID>)>,
    shown: &Vec<SteamID>,
) -> (r: Vec<FriendshipLine>)
    ensures
        lines_view(r@) == lobby_lines(me@, ids_view(my_friends@), ids_view(shown@), friends_view(players@)),
{
    let ghost my = ids_view(my_friends@);
    let ghost sh = ids_view(shown@);
    let ghost pv = friends_view(players@);
    let mut r: Vec<FriendshipLine> = Vec::new();
    let mut i: usize = 0;
    while i < players.len()
        invariant
            i <= players.len(),
            my == ids_view(my_friends@),
            sh == ids_view(shown@),
            pv == friends_view(players@),
            lines_view(r@) == lobby_lines(me@, my, sh, pv.take(i as int)),
        decreases players.len() - i,
    {
        assert(pv.take(i + 1).drop_last() == pv.take(i as int));
        assert(pv.take(i + 1).last() == pv[i as int]);
        let p = players[i].0;
        let friends = &players[i].1;
        assert(pv[i as int] == (p@, ids_view(friends@)));
        if p.to_u64() != me.to_u64() && has_id(shown, p) {
            let ghost before = lines_view(r@);
            let ghost fv = ids_view(friends@);
            let mut j: usize = 0;
            while j < friends.len()
                invariant
                    j <= friends.len(),
                    fv == ids_view(friends@),
                    my == ids_view(my_friends@),
                    sh == ids_view(shown@),
                    lines_view(r@) == before + player_lines(me@, my, sh, p@, fv.take(j as int)),
                decreases friends.len() - j,
            {
                assert(fv.take(j + 1).drop_last() == fv.take(j as int));
                assert(fv.take(j + 1).last() == friends@[j as int]@);
                let f = friends[j];
                let pf = p.to_u64();
                let ff = f.to_u64();
                if ff <= pf && ff != me.to_u64() && !(has_id(my_friends, f) && has_id(my_friends, p))
                    && has_id(shown, f) {
                    let line = FriendshipLine { from: p, to: f, flipped: pf % 2 != ff % 2 };
                    proof {
                        lemma_lines_push(r@, line);
                    }
                    r.push(line);
                    assert(lines_view(r@) == before + player_lines(me@, my, sh, p@, fv.take(j as int)).push(
                        line_view(line),
                    ));
                }
                j = j + 1;
            }
            assert(fv.take(friends.len() as int) == fv);
        }
        i = i + 1;
    }
    assert(pv.take(players.len() as int) == pv);
    r
}

/// What every line drawn satisfies: it goes from the larger SteamID to the
/// smaller (so a friendship is drawn once); it neither starts nor ends at
/// you; it does not join two of your friends; both its ends have a mark on
/// the scoreboard; and it bends the other way exactly when the two SteamIDs
/// differ in their lowest bit.
pub proof fn law_friendship_lines_one_way(
    me: u64,
    my_friends: Seq<u64>,
    shown: Seq<u64>,
    players: Seq<(u64, Seq<u64>)>,
)
    ensures
        forall|k: int|
            0 <= k < lobby_lines(me, my_friends, shown, players).len() ==> good_line(
                me,
                my_friends,
                shown,
                #[trigger] lobby_lines(me, my_friends, shown, players)[k],
            ),
    decreases players.len(),
{
    if players.len() > 0 {
        law_friendship_lines_one_way(me, my_friends, shown, players.drop_last());
        let (p, friends) = players.last();
        let rest = lobby_lines(me, my_friends, shown, players.drop_last());
        lemma_player_lines_one_way(me, my_friends, shown, p, friends);
        if p != me && shown.contains(p) {
            lemma_player_lines_good(me, my_friends, shown, p, friends);
            let all = rest + player_lines(me, my_friends, shown, p, friends);
            assert forall|k: int| 0 <= k < all.len() implies good_line(me, my_friends, shown, #[trigger] all[k]) by {
                if k < rest.len() {
                    assert(all[k] == rest[k]);
                } else {
                    assert(all[k] == player_lines(me, my_friends, shown, p, friends)[k - rest.len()]);
                }
            }
        }
    }
}

/// The conditions every drawn line meets (see `law_friendship_lines_one_way`).
pub open spec fn good_line(me: u64, my_friends: Seq<u64>, shown: Seq<u64>, l: (u64, u64, bool)) -> bool {
    &&& l.1 <= l.0
    &&& l.0 != me
    &&& l.1 != me
    &&& !(my_friends.contains(l.0) && my_friends.contains(l.1))
    &&& shown.contains(l.0)
    &&& shown.contains(l.1)
    &&& l.2 == (l.0 % 2 != l.1 % 2)
}

proof fn lemma_player_lines_good(me: u64, my_friends: Seq<u64>, shown: Seq<u64>, p: u64, friends: Seq<u64>)
    requires
        p != me,
        shown.contains(p),
    ensures
        forall|k: int|
            0 <= k < player_lines(me, my_friends, shown, p, friends).len() ==> {
                let l = #[trigger] player_lines(me, my_friends, shown, p, friends)[k];
                &&& l.0 == p
                &&& good_line(me, my_friends, shown, l)
            },
    decreases friends.len(),
{
    if friends.len() > 0 {
        lemma_player_lines_good(me, my_friends, shown, p, friends.drop_last());
        let rest = player_lines(me, my_friends, shown, p, friends.drop_last());
        let all = player_lines(me, my_friends, shown, p, friends);
        assert forall|k: int| 0 <= k < all.len() implies {
            let l = #[trigger] all[k];
            &&& l.0 == p
            &&& good_line(me, my_friends, shown, l)
        } by {
            if k < rest.len() {
                assert(all[k] == rest[k]);
            }
        }
    }
}

proof fn lemma_player_lines_one_way(me: u64, my_friends: Seq<u64>, shown: Seq<u64>, p: u64, friends: Seq<u64>)
    ensures
        forall|k: int|
            0 <= k < player_lines(me, my_friends, shown, p, friends).len() ==> {
                let l = #[trigger] player_lines(me, my_friends, shown, p, friends)[k];
                &&& l.0 == p
                &&& l.1 <= l.0
                &&& l.1 != me
            },
    decreases friends.len(),
{
    if friends.len() > 0 {
        lemma_player_lines_one_way(me, my_friends, shown, p, friends.drop_last());
        let rest = player_lines(me, my_friends, shown, p, friends.drop_last());
        let all = player_lines(me, my_friends, shown, p, friends);
        assert forall|k: int| 0 <= k < all.len() implies {
            let l = #[trigger] all[k];
            &&& l.0 == p
            &&& l.1 <= l.0
            &&& l.1 != me
        } by {
            if k < rest.len() {
                assert(all[k] == rest[k]);
            }
        }
    }
}

} // verus!

//! The players an actor can aim at, and the choice of the nearest one.

use vstd::prelude::*;
use crate::space::{dist_sq, distance_squared, lemma_dist_sq_symmetric, Point};

verus! {

/// One player as the engine sees it each tick: a handle and a position.
#[derive(Clone, Copy, Debug, PartialEq, Eq, Structural)]
pub struct Player {
    pub id: u64,
    pub position: Point,
}

/// The player nearest to `from`; among equally near ones the first in the
/// list. `None` for an empty list.
pub open spec fn nearest(players: Seq<Player>, from: Point) -> Option<Player>
    decreases players.len(),
{
    if players.len() == 0 {
        None
    } else {
        let last = players.last();
        match nearest(players.drop_last(), from) {
            None => Some(last),
            Some(best) => if dist_sq(from, last.position) < dist_sq(from, best.position) {
                Some(last)
            } else {
                Some(best)
            },
        }
    }
}

/// The first player in the list whose handle is `id`, if any.
pub open spec fn find(players: Seq<Player>, id: u64) -> Option<Player>
    decreases players.len(),
{
    if players.len() == 0 {
        None
    } else if players[0].id == id {
        Some(players[0])
    } else {
        find(players.drop_first(), id)
    }
}

/// The nearest player is one of the players, and none is nearer.
pub proof fn lemma_nearest_is_minimal(players: Seq<Player>, from: Point)
    ensures
        players.len() == 0 <==> nearest(players, from).is_none(),
        nearest(players, from) matches Some(best) ==> {
            &&& players.contains(best)
            &&& forall|j: int|
                0 <= j < players.len() ==> dist_sq(from, best.position) <= dist_sq(
                    from,
                    #[trigger] players[j].position,
                )
        },
    decreases players.len(),
{
    if players.len() > 0 {
        let front = players.drop_last();
        lemma_nearest_is_minimal(front, from);
        let best = nearest(players, from).unwrap();
        assert(players.last() == players[players.len() - 1]);
        match nearest(front, from) {
            None => {},
            Some(b) => {
                let i = choose|i: int| 0 <= i < front.len() && front[i] == b;
                assert(players[i] == b);
            },
        }
        assert forall|j: int| 0 <= j < players.len() implies dist_sq(from, best.position)
            <= dist_sq(from, #[trigger] players[j].position) by {
            if j < front.len() {
                assert(front[j] == players[j]);
            }
        }
    }
}

/// A player that `find` returns carries the handle asked for and is one of
/// the players; `find` returns none only if no player carries the handle.
pub proof fn lemma_find_matches(players: Seq<Player>, id: u64)
    ensures
        find(players, id) matches Some(p) ==> p.id == id && players.contains(p),
        find(players, id).is_none() ==> forall|j: int|
            0 <= j < players.len() ==> (#[trigger] players[j]).id != id,
    decreases players.len(),
{
    if players.len() > 0 {
        if players[0].id == id {
        } else {
            let rest = players.drop_first();
            lemma_find_matches(rest, id);
            match find(rest, id) {
                Some(p) => {
                    let i = choose|i: int| 0 <= i < rest.len() && rest[i] == p;
                    assert(players[i + 1] == p);
                },
                None => {
                    assert forall|j: int| 0 <= j < players.len() implies (
                    #[trigger] players[j]).id != id by {
                        if j > 0 {
                            assert(rest[j - 1] == players[j]);
                        }
                    }
                },
            }
        }
    }
}

/// Finds the player nearest to `from`.
pub fn nearest_player(players: &Vec<Player>, from: Point) -> (r: Option<Player>)
    ensures
        r == nearest(players@, from),
{
    let mut best: Option<Player> = None;
    let mut best_d: u128 = 0;
    let mut k: usize = 0;
    while k < players.len()
        invariant
            k <= players.len(),
            best == nearest(players@.take(k as int), from),
            best matches Some(b) ==> best_d == dist_sq(from, b.position),
        decreases players.len() - k,
    {
        let p: Player = players[k];
        let d: u128 = distance_squared(p.position, from);
        proof {
            lemma_dist_sq_symmetric(p.position, from);
            let next = players@.take(k + 1);
            assert(next.drop_last() =~= players@.take(k as int));
            assert(next.last() == p);
        }
        best = match best {
            None => Some(p),
            Some(b) => if d < best_d {
                Some(p)
            } else {
                Some(b)
            },
        };
        if best == Some(p) {
            best_d = d;
        }
        k = k + 1;
    }
    proof {
        assert(players@.take(k as int) =~= players@);
    }
    best
}

/// Finds the first player with handle `id`.
pub fn find_player(players: &Vec<Player>, id: u64) -> (r: Option<Player>)
    ensures
        r == find(players@, id),
{
    let mut k: usize = 0;
    proof {
        assert(players@.skip(0) =~= players@);
    }
    while k < players.len()
        invariant
            k <= players.len(),
            find(players@, id) == find(players@.skip(k as int), id),
        decreases players.len() - k,
    {
        let p: Player = players[k];
        proof {
            let tail = players@.skip(k as int);
            assert(tail[0] == p);
            assert(tail.drop_first() =~= players@.skip(k + 1));
        }
        if p.id == id {
            return Some(p);
        }
        k = k + 1;
    }
    None
}

} // verus!

//! The activation manager: which actors are pending in the grid, which are
//! live, and how they pass from one to the other.

use vstd::prelude::*;
use crate::actions::{ActionState, Body, Shot};
use crate::archetypes::{
    choices_of, danger_of, fallback, movement_of, radius_of, rate_of, restlessness_rate, speed_of,
    thinker_for, CanMove, Danger, THRESHOLD,
};
use crate::grid::{filed_under, has_actor, near_any, CollisionGrid};
use crate::restless::{accumulated, Restlessness};
use crate::scorers::excess;
use crate::space::{cell_at, dist_sq, distance_squared, Cell, Point};
use crate::records::{DangerInGrid, DangerType};
use crate::targets::Player;
use crate::movement::{within_unit, Moving};
use crate::thinker::{act_spec, Action, Behavior, Thinker};
use crate::chance::random_direction;
use bevy_turborand::GlobalRng;

verus! {

/// Beyond this distance from every player a live actor may retire.
pub const DESPAWN_DISTANCE: u64 = 1500;

/// How long, in milliseconds, an actor stays live before it may retire.
pub const GRACE_PERIOD: u64 = 20_000;

/// When an actor became live, or was last exempt from retirement, in
/// milliseconds.
#[derive(Clone, Copy, Debug, PartialEq, Eq, Structural)]
pub struct SpawnTime(pub u64);

/// A live actor with everything only live actors have.
#[derive(Debug)]
pub struct LiveDanger {
    pub actor: u64,
    pub kind: DangerType,
    pub danger: Danger,
    pub can_move: CanMove,
    pub spawn_time: SpawnTime,
    /// Set while the actor is exempt from retirement, as during a teleport.
    pub ignore: bool,
    pub body: Body,
    pub thinker: Thinker,
}

/// The body of an actor of kind `kind` that has just become live at
/// `position`.
pub open spec fn fresh_body(position: Point, kind: DangerType) -> Body {
    Body {
        position,
        restlessness: Restlessness { per_second: rate_of(kind), current_restlessness: 0 },
        moving: None,
        shot: None,
    }
}

/// Whether `d` is what pending record `rec` becomes when promoted at time
/// `now`: the initial conditions of its kind.
pub open spec fn is_fresh(d: LiveDanger, rec: DangerInGrid, now: u64) -> bool {
    &&& d.actor == rec.actor
    &&& d.kind == rec.kind
    &&& d.danger.0 == radius_of(rec.kind)
    &&& d.can_move.move_speed == speed_of(rec.kind)
    &&& d.spawn_time.0 == now
    &&& !d.ignore
    &&& d.body == fresh_body(rec.position, rec.kind)
    &&& d.thinker.picker.threshold == THRESHOLD
    &&& d.thinker.choices@ == choices_of(rec.kind)
    &&& d.thinker.otherwise == fallback()
    &&& d.thinker.current == d.thinker.choices@.len()
    &&& d.thinker.action == fallback()
    &&& d.thinker.state == ActionState::Requested
}

/// The pending record that live actor `d` leaves behind when it retires.
pub open spec fn record_of(d: LiveDanger) -> DangerInGrid {
    DangerInGrid { actor: d.actor, position: d.body.position, kind: d.kind }
}

/// Makes the live actor that pending record `rec` becomes at time `now`.
pub fn promote(rec: DangerInGrid, now: u64) -> (d: LiveDanger)
    ensures
        is_fresh(d, rec, now),
        d.thinker.wf(),
{
    LiveDanger {
        actor: rec.actor,
        kind: rec.kind,
        danger: danger_of(rec.kind),
        can_move: movement_of(rec.kind),
        spawn_time: SpawnTime(now),
        ignore: false,
        body: Body {
            position: rec.position,
            restlessness: Restlessness::new(restlessness_rate(rec.kind)),
            moving: None,
            shot: None,
        },
        thinker: thinker_for(rec.kind),
    }
}

/// Whether every player is more than `limit` away from `from`. True where
/// there is no player.
pub open spec fn all_far(players: Seq<Player>, from: Point, limit: u64) -> bool {
    forall|j: int|
        0 <= j < players.len() ==> dist_sq(from, (#[trigger] players[j]).position) > limit * limit
}

/// Whether live actor `d` is due for retirement at time `now`: it is not
/// exempt, has been live for the grace period, and every player is more than
/// `despawn_distance` away.
pub open spec fn retires(
    d: LiveDanger,
    players: Seq<Player>,
    now: u64,
    despawn_distance: u64,
    grace_period: u64,
) -> bool {
    &&& !d.ignore
    &&& excess(now as int, d.spawn_time.0 as int) >= grace_period
    &&& all_far(players, d.body.position, despawn_distance)
}

/// The live actors that stay live, in their order.
pub open spec fn survivors(
    live: Seq<LiveDanger>,
    players: Seq<Player>,
    now: u64,
    despawn_distance: u64,
    grace_period: u64,
) -> Seq<LiveDanger>
    decreases live.len(),
{
    if live.len() == 0 {
        Seq::empty()
    } else {
        let rest = survivors(live.drop_last(), players, now, despawn_distance, grace_period);
        if retires(live.last(), players, now, despawn_distance, grace_period) {
            rest
        } else {
            rest.push(live.last())
        }
    }
}

/// The pending records of the live actors that retire, in their order.
pub open spec fn retired(
    live: Seq<LiveDanger>,
    players: Seq<Player>,
    now: u64,
    despawn_distance: u64,
    grace_period: u64,
) -> Seq<DangerInGrid>
    decreases live.len(),
{
    if live.len() == 0 {
        Seq::empty()
    } else {
        let rest = retired(live.drop_last(), players, now, despawn_distance, grace_period);
        if retires(live.last(), players, now, despawn_distance, grace_period) {
            rest.push(record_of(live.last()))
        } else {
            rest
        }
    }
}

/// Tells whether every player is more than `limit` away from `from`.
pub fn far_from_all(players: &Vec<Player>, from: Point, limit: u64) -> (r: bool)
    ensures
        r == all_far(players@, from, limit),
{
    assert(limit * limit <= 0xFFFF_FFFF_FFFF_FFFF * 0xFFFF_FFFF_FFFF_FFFF) by (nonlinear_arith)
        requires
            0 <= limit <= 0xFFFF_FFFF_FFFF_FFFF,
    ;
    let bound: u128 = limit as u128 * limit as u128;
    let mut k: usize = 0;
    while k < players.len()
        invariant
            k <= players.len(),
            bound == limit * limit,
            forall|j: int| 0 <= j < k ==> dist_sq(from, (#[trigger] players@[j]).position) > bound,
        decreases players.len() - k,
    {
        if distance_squared(from, players[k].position) <= bound {
            return false;
        }
        k = k + 1;
    }
    true
}

/// Tells whether live actor `d` is due for retirement at time `now`.
pub fn should_retire(
    d: &LiveDanger,
    players: &Vec<Player>,
    now: u64,
    despawn_distance: u64,
    grace_period: u64,
) -> (r: bool)
    ensures
        r == retires(*d, players@, now, despawn_distance, grace_period),
{
    if d.ignore {
        return false;
    }
    let age: u64 = if now > d.spawn_time.0 {
        now - d.spawn_time.0
    } else {
        0
    };
    if age < grace_period {
        return false;
    }
    far_from_all(players, d.body.position, despawn_distance)
}

/// Live actor `d` after `dt` milliseconds of passive restlessness: an exempt
/// actor stays as it is.
pub open spec fn rested(d: LiveDanger, dt: int) -> LiveDanger {
    if d.ignore {
        d
    } else {
        LiveDanger {
            body: Body {
                restlessness: Restlessness {
                    current_restlessness: accumulated(d.body.restlessness, dt) as i64,
                    ..d.body.restlessness
                },
                ..d.body
            },
            ..d
        }
    }
}

/// Whether `after` is live actor `before` with nothing changed but, at most,
/// its body and the running action of its thinker.
pub open spec fn same_actor(before: LiveDanger, after: LiveDanger) -> bool {
    &&& after.actor == before.actor
    &&& after.kind == before.kind
    &&& after.danger == before.danger
    &&& after.can_move == before.can_move
    &&& after.spawn_time == before.spawn_time
    &&& after.ignore == before.ignore
    &&& after.thinker.same_config(before.thinker)
}

/// Whether `after` is live actor `before` once its thinker has thought about
/// the players of this tick.
pub open spec fn has_thought(before: LiveDanger, after: LiveDanger, players: Seq<Player>) -> bool {
    &&& same_actor(before, after)
    &&& after.body == before.body
    &&& (after.thinker.current as int, after.thinker.action, after.thinker.state)
        == before.thinker.thought(before.body, players)
}

/// Whether `after` is live actor `before` once its running action has run
/// for one tick and has set out, if it was a meander just requested, in
/// `direction`.
pub open spec fn has_acted(
    before: LiveDanger,
    after: LiveDanger,
    players: Seq<Player>,
    now: u64,
    dt: int,
    direction: Moving,
) -> bool {
    &&& same_actor(before, after)
    &&& after.thinker.current == before.thinker.current
    &&& (after.thinker.action, after.thinker.state, after.body) == act_spec(
        before.thinker.action,
        before.thinker.state,
        before.body,
        players,
        now,
        dt,
        direction,
    )
}

/// Whether `after` is live actor `before` once its running action has run
/// for one tick, whatever direction a meander may have set out in.
pub open spec fn acted_somehow(
    before: LiveDanger,
    after: LiveDanger,
    players: Seq<Player>,
    now: u64,
    dt: int,
) -> bool {
    exists|direction: Moving|
        within_unit(direction) && #[trigger] has_acted(before, after, players, now, dt, direction)
}

/// Whether the running action of `d` is a meander that was just requested
/// and so needs a direction to set out in.
pub open spec fn sets_out(d: LiveDanger) -> bool {
    d.thinker.action.kind() == Behavior::Meandering && d.thinker.state == ActionState::Requested
}

/// Live actor `d` with its age counted from `now` if it is exempt.
pub open spec fn remarked(d: LiveDanger, now: u64) -> LiveDanger {
    if d.ignore {
        LiveDanger { spawn_time: SpawnTime(now), ..d }
    } else {
        d
    }
}

impl LiveDanger {
    /// Lets the thinker score its choices and settle on what to run.
    pub fn think(&mut self, players: &Vec<Player>)
        requires
            old(self).thinker.wf(),
        ensures
            has_thought(*old(self), *final(self), players@),
            final(self).thinker.wf(),
    {
        self.thinker.think(&self.body, players);
    }

    /// Runs the current action for one tick of `dt` milliseconds at time
    /// `now`.
    pub fn act(&mut self, players: &Vec<Player>, now: u64, dt: u32, direction: Moving)
        requires
            old(self).thinker.wf(),
        ensures
            has_acted(*old(self), *final(self), players@, now, dt as int, direction),
            final(self).thinker.wf(),
    {
        self.thinker.act(&mut self.body, players, now, dt, direction);
    }

    /// Tells whether the running action is a meander that was just
    /// requested.
    pub fn setting_out(&self) -> (r: bool)
        ensures
            r == sets_out(*self),
    {
        match self.thinker.action {
            Action::Meandering(_) => match self.thinker.state {
                ActionState::Requested => true,
                _ => false,
            },
            _ => false,
        }
    }
}

/// All hostile actors of a level: the pending ones in the grid and the live
/// ones.
pub struct Dangers {
    pub grid: CollisionGrid,
    pub live: Vec<LiveDanger>,
    /// The handle the next new actor gets.
    pub next_actor: u64,
}

impl Dangers {
    /// Whether actor `a` is pending: the grid holds a record of it.
    pub open spec fn is_pending(self, a: u64) -> bool {
        exists|rec: DangerInGrid| #[trigger] self.grid.holds(rec) && rec.actor == a
    }

    /// Whether actor `a` is live.
    pub open spec fn is_live(self, a: u64) -> bool {
        exists|i: int| 0 <= i < self.live@.len() && (#[trigger] self.live@[i]).actor == a
    }

    /// The invariant of the activation manager. No actor has two pending
    /// records or two live entries, none is both pending and live, every
    /// handle in use is below the next one to hand out, and every live
    /// actor's thinker is well formed.
    pub open spec fn wf(self) -> bool {
        &&& self.grid.wf()
        &&& forall|r1: DangerInGrid, r2: DangerInGrid|
            #[trigger] self.grid.holds(r1) && #[trigger] self.grid.holds(r2) && r1.actor
                == r2.actor ==> r1 == r2
        &&& forall|i: int, j: int|
            0 <= i < j < self.live@.len() ==> (#[trigger] self.live@[i]).actor != (
            #[trigger] self.live@[j]).actor
        &&& forall|rec: DangerInGrid, i: int|
            #[trigger] self.grid.holds(rec) && 0 <= i < self.live@.len() ==> (
            #[trigger] self.live@[i]).actor != rec.actor
        &&& forall|rec: DangerInGrid| #[trigger] self.grid.holds(rec) ==> rec.actor < self.next_actor
        &&& forall|i: int|
            0 <= i < self.live@.len() ==> (#[trigger] self.live@[i]).actor < self.next_actor
        &&& forall|i: int| 0 <= i < self.live@.len() ==> (#[trigger] self.live@[i]).thinker.wf()
    }

    /// A level without actors.
    pub fn new() -> (r: Dangers)
        ensures
            r.wf(),
            r.grid.is_empty(),
            r.live@.len() == 0,
            r.next_actor == 0,
    {
        let r = Dangers { grid: CollisionGrid::new(), live: Vec::new(), next_actor: 0 };
        proof {
            r.grid.lemma_empty_holds_nothing();
        }
        r
    }

    /// Registers a new actor of kind `kind` at `position` as pending and
    /// returns its handle; `None`, with nothing changed, once the handles
    /// have run out.
    pub fn setup_danger_in_grid(&mut self, position: Point, kind: DangerType) -> (r: Option<u64>)
        requires
            old(self).wf(),
        ensures
            final(self).wf(),
            final(self).live@ == old(self).live@,
            match r {
                Some(actor) => {
                    &&& actor == old(self).next_actor
                    &&& final(self).next_actor == actor + 1
                    &&& final(self).grid.records_at(cell_at(position)) == old(
                        self,
                    ).grid.records_at(cell_at(position)).push(
                        DangerInGrid { actor, position, kind },
                    )
                    &&& forall|o: Cell|
                        o != cell_at(position) ==> #[trigger] final(self).grid.records_at(o) == old(
                            self,
                        ).grid.records_at(o)
                    &&& forall|rec: DangerInGrid|
                        #[trigger] final(self).grid.holds(rec) <==> old(self).grid.holds(rec)
                            || rec == (DangerInGrid { actor, position, kind })
                },
                None => {
                    &&& old(self).next_actor == u64::MAX
                    &&& final(self).next_actor == old(self).next_actor
                    &&& final(self).grid == old(self).grid
                },
            },
    {
        if self.next_actor == u64::MAX {
            return None;
        }
        let actor: u64 = self.next_actor;
        let ghost c = cell_at(position);
        proof {
            if has_actor(self.grid.records_at(c), actor) {
                let i = choose|i: int|
                    0 <= i < self.grid.records_at(c).len() && (
                    #[trigger] self.grid.records_at(c)[i]).actor == actor;
                let held = self.grid.records_at(c)[i];
                assert(cell_at(held.position) == c);
                assert(self.grid.holds(held));
            }
        }
        self.grid.insert(actor, position, kind);
        self.next_actor = actor + 1;
        proof {
            let rec0 = DangerInGrid { actor, position, kind };
            old(self).grid.lemma_holds_after_push(self.grid, rec0);
        }
        Some(actor)
    }

    /// Moves the live actor at place `i` back to pending: it leaves the live
    /// actors, and a record of it is filed at its current position.
    pub fn retire_at(&mut self, i: usize) -> (r: DangerInGrid)
        requires
            old(self).wf(),
            i < old(self).live@.len(),
        ensures
            final(self).wf(),
            final(self).next_actor == old(self).next_actor,
            r == record_of(old(self).live@[i as int]),
            final(self).live@ == old(self).live@.remove(i as int),
            final(self).grid.records_at(cell_at(r.position)) == old(self).grid.records_at(
                cell_at(r.position),
            ).push(r),
            forall|o: Cell|
                o != cell_at(r.position) ==> #[trigger] final(self).grid.records_at(o) == old(
                    self,
                ).grid.records_at(o),
            forall|rec: DangerInGrid|
                #[trigger] final(self).grid.holds(rec) <==> old(self).grid.holds(rec) || rec == r,
    {
        let d: LiveDanger = self.live.remove(i);
        let rec: DangerInGrid = DangerInGrid {
            actor: d.actor,
            position: d.body.position,
            kind: d.kind,
        };
        let ghost c = cell_at(rec.position);
        proof {
            if has_actor(self.grid.records_at(c), rec.actor) {
                let k = choose|k: int|
                    0 <= k < self.grid.records_at(c).len() && (
                    #[trigger] self.grid.records_at(c)[k]).actor == rec.actor;
                let held = self.grid.records_at(c)[k];
                assert(cell_at(held.position) == c);
                assert(old(self).grid.holds(held));
                assert(old(self).live@[i as int].actor == held.actor);
            }
        }
        self.grid.insert(rec.actor, rec.position, rec.kind);
        proof {
            old(self).grid.lemma_holds_after_push(self.grid, rec);
            assert forall|a: int| 0 <= a < self.live@.len() implies {
                &&& (#[trigger] self.live@[a]).actor != rec.actor
                &&& self.live@[a] == old(self).live@[if a < i { a } else { a + 1 }]
            } by {
                let b = if a < i { a } else { a + 1 };
                assert(self.live@[a] == old(self).live@[b]);
                if b < i {
                    assert(old(self).live@[b].actor != old(self).live@[i as int].actor);
                } else {
                    assert(old(self).live@[i as int].actor != old(self).live@[b].actor);
                }
            }
            assert forall|a: int, b: int| 0 <= a < b < self.live@.len() implies (
            #[trigger] self.live@[a]).actor != (#[trigger] self.live@[b]).actor by {
                let a0 = if a < i { a } else { a + 1 };
                let b0 = if b < i { b } else { b + 1 };
                assert(old(self).live@[a0].actor != old(self).live@[b0].actor);
            }
            assert forall|held: DangerInGrid, a: int| #[trigger]
                self.grid.holds(held) && 0 <= a < self.live@.len() implies (
            #[trigger] self.live@[a]).actor != held.actor by {
                let a0 = if a < i { a } else { a + 1 };
                if held != rec {
                    assert(old(self).grid.holds(held));
                    assert(old(self).live@[a0].actor != held.actor);
                }
            }
            assert forall|r1: DangerInGrid, r2: DangerInGrid| #[trigger]
                self.grid.holds(r1) && #[trigger] self.grid.holds(r2) && r1.actor
                    == r2.actor implies r1 == r2 by {
                if r1 == rec && r2 != rec {
                    assert(old(self).grid.holds(r2));
                    assert(old(self).live@[i as int].actor != r2.actor);
                }
                if r2 == rec && r1 != rec {
                    assert(old(self).grid.holds(r1));
                    assert(old(self).live@[i as int].actor != r1.actor);
                }
            }
            assert forall|a: int| 0 <= a < self.live@.len() implies (
            #[trigger] self.live@[a]).thinker.wf() by {
                let a0 = if a < i { a } else { a + 1 };
                assert(old(self).live@[a0].thinker.wf());
            }
        }
        rec
    }

    /// The invariant survives any change that leaves the grid and the handle
    /// counter alone, keeps every live actor's handle in its place, and keeps
    /// the thinkers well formed.
    pub proof fn lemma_same_actors_keep_wf(self, after: Dangers)
        requires
            self.wf(),
            after.grid == self.grid,
            after.next_actor == self.next_actor,
            after.live@.len() == self.live@.len(),
            forall|i: int|
                0 <= i < self.live@.len() ==> (#[trigger] after.live@[i]).actor
                    == self.live@[i].actor && after.live@[i].thinker.wf(),
        ensures
            after.wf(),
    {
        assert forall|i: int, j: int| 0 <= i < j < after.live@.len() implies (
        #[trigger] after.live@[i]).actor != (#[trigger] after.live@[j]).actor by {
            assert(self.live@[i].actor != self.live@[j].actor);
        }
        assert forall|rec: DangerInGrid, i: int| #[trigger]
            after.grid.holds(rec) && 0 <= i < after.live@.len() implies (
        #[trigger] after.live@[i]).actor != rec.actor by {
            assert(self.live@[i].actor != rec.actor);
        }
        assert forall|i: int| 0 <= i < after.live@.len() implies (#[trigger] after.live@[i]).actor
            < after.next_actor by {
            assert(self.live@[i].actor < self.next_actor);
        }
    }

    /// The invariant survives a promotion: `after` is this state once the
    /// records `taken`, those near some player, have left the grid and
    /// joined the live actors.
    proof fn lemma_promotion_keeps_wf(
        self,
        after: Dangers,
        taken: Seq<DangerInGrid>,
        players: Seq<Player>,
    )
        requires
            self.wf(),
            after.grid.wf(),
            after.next_actor == self.next_actor,
            forall|c: Cell|
                #[trigger] after.grid.records_at(c) == if near_any(players, c) {
                    Seq::<DangerInGrid>::empty()
                } else {
                    self.grid.records_at(c)
                },
            forall|rec: DangerInGrid|
                #[trigger] taken.contains(rec) <==> self.grid.holds(rec) && near_any(
                    players,
                    cell_at(rec.position),
                ),
            forall|i: int, j: int|
                0 <= i < j < taken.len() ==> (#[trigger] taken[i]).actor != (#[trigger] taken[j]).actor,
            after.live@.len() == self.live@.len() + taken.len(),
            forall|i: int|
                0 <= i < self.live@.len() ==> #[trigger] after.live@[i] == self.live@[i],
            forall|i: int|
                0 <= i < taken.len() ==> (#[trigger] after.live@[self.live@.len() + i]).actor
                    == taken[i].actor && after.live@[self.live@.len() + i].thinker.wf(),
        ensures
            after.wf(),
    {
        let n = self.live@.len() as int;
        assert forall|rec: DangerInGrid| #[trigger] after.grid.holds(rec) implies self.grid.holds(
            rec,
        ) && !near_any(players, cell_at(rec.position)) by {
            let c = cell_at(rec.position);
            assert(after.grid.records_at(c).len() > 0);
        }
        assert forall|i: int| n <= i < after.live@.len() implies self.grid.holds(taken[i - n])
            && near_any(players, cell_at(taken[i - n].position)) && (
        #[trigger] after.live@[i]).actor == taken[i - n].actor && after.live@[i].thinker.wf() by {
            assert(taken.contains(taken[i - n]));
            assert(after.live@[n + (i - n)].actor == taken[i - n].actor);
        }
        assert forall|i: int| 0 <= i < after.live@.len() implies (#[trigger] after.live@[i]).actor
            < after.next_actor by {
            if i < n {
                assert(after.live@[i] == self.live@[i]);
            } else {
                assert(self.grid.holds(taken[i - n]));
            }
        }
        assert forall|i: int| 0 <= i < after.live@.len() implies (
        #[trigger] after.live@[i]).thinker.wf() by {
            if i < n {
                assert(after.live@[i] == self.live@[i]);
            }
        }
        assert forall|i: int, j: int| 0 <= i < j < after.live@.len() implies (
        #[trigger] after.live@[i]).actor != (#[trigger] after.live@[j]).actor by {
            if j < n {
                assert(after.live@[i] == self.live@[i]);
                assert(after.live@[j] == self.live@[j]);
            } else if i < n {
                assert(after.live@[i] == self.live@[i]);
                assert(self.grid.holds(taken[j - n]));
            } else {
                assert(taken[i - n].actor != taken[j - n].actor);
            }
        }
        assert forall|rec: DangerInGrid, i: int| #[trigger]
            after.grid.holds(rec) && 0 <= i < after.live@.len() implies (
        #[trigger] after.live@[i]).actor != rec.actor by {
            assert(self.grid.holds(rec));
            if i < n {
                assert(after.live@[i] == self.live@[i]);
            } else {
                assert(self.grid.holds(taken[i - n]));
                if after.live@[i].actor == rec.actor {
                    assert(taken[i - n] == rec);
                }
            }
        }
        assert forall|r1: DangerInGrid, r2: DangerInGrid| #[trigger]
            after.grid.holds(r1) && #[trigger] after.grid.holds(r2) && r1.actor
                == r2.actor implies r1 == r2 by {
            assert(self.grid.holds(r1) && self.grid.holds(r2));
        }
        assert forall|rec: DangerInGrid| #[trigger] after.grid.holds(rec) implies rec.actor
            < after.next_actor by {
            assert(self.grid.holds(rec));
        }
    }

    /// Activates the pending actors near the players: every record in the
    /// block of cells around some player leaves the grid and becomes a live
    /// actor in the initial conditions of its kind, live since `now`. Returns
    /// the records promoted, in the order in which their live actors were
    /// added. With no player nothing happens.
    pub fn spawn_danger(&mut self, players: &Vec<Player>, now: u64) -> (r: Vec<DangerInGrid>)
        requires
            old(self).wf(),
        ensures
            final(self).wf(),
            final(self).next_actor == old(self).next_actor,
            forall|c: Cell|
                #[trigger] final(self).grid.records_at(c) == if near_any(players@, c) {
                    Seq::<DangerInGrid>::empty()
                } else {
                    old(self).grid.records_at(c)
                },
            forall|rec: DangerInGrid|
                #[trigger] r@.contains(rec) <==> old(self).grid.holds(rec) && near_any(
                    players@,
                    cell_at(rec.position),
                ),
            forall|i: int, j: int|
                0 <= i < j < r@.len() ==> (#[trigger] r@[i]).actor != (#[trigger] r@[j]).actor,
            r@ == old(self).grid.scan_records(players@, 9 * (players@.len() as int)),
            final(self).live@.len() == old(self).live@.len() + r@.len(),
            forall|i: int|
                0 <= i < old(self).live@.len() ==> #[trigger] final(self).live@[i] == old(
                    self,
                ).live@[i],
            forall|i: int|
                0 <= i < r@.len() ==> is_fresh(
                    final(self).live@[old(self).live@.len() + i],
                    #[trigger] r@[i],
                    now,
                ),
    {
        let taken: Vec<DangerInGrid> = self.grid.take_near(players);
        let ghost sparse = self.grid;
        proof {
            assert forall|i: int, j: int| 0 <= i < j < taken@.len() implies (
            #[trigger] taken@[i]).actor != (#[trigger] taken@[j]).actor by {
                assert(taken@.contains(taken@[i]));
                assert(taken@.contains(taken@[j]));
            }
        }
        let mut k: usize = 0;
        while k < taken.len()
            invariant
                k <= taken.len(),
                self.grid == sparse,
                self.next_actor == old(self).next_actor,
                self.live@.len() == old(self).live@.len() + k,
                forall|i: int|
                    0 <= i < old(self).live@.len() ==> #[trigger] self.live@[i] == old(
                        self,
                    ).live@[i],
                forall|i: int|
                    0 <= i < k ==> is_fresh(
                        self.live@[old(self).live@.len() + i],
                        #[trigger] taken@[i],
                        now,
                    ) && self.live@[old(self).live@.len() + i].thinker.wf(),
            decreases taken.len() - k,
        {
            let d: LiveDanger = promote(taken[k], now);
            self.live.push(d);
            k = k + 1;
        }
        proof {
            assert forall|i: int| 0 <= i < taken@.len() implies (#[trigger] self.live@[old(
                self,
            ).live@.len() + i]).actor == taken@[i].actor && self.live@[old(self).live@.len()
                + i].thinker.wf() by {
                assert(is_fresh(self.live@[old(self).live@.len() + i], taken@[i], now));
            }
            old(self).lemma_promotion_keeps_wf(*self, taken@, players@);
        }
        taken
    }

    /// Retires the live actors that are due at time `now`: each one that is
    /// not exempt, has been live for `grace_period` and has every player
    /// more than `despawn_distance` away leaves the live actors, and a
    /// pending record of it is filed at its current position. Returns these
    /// records. The others stay live, in their order.
    pub fn retire(
        &mut self,
        players: &Vec<Player>,
        now: u64,
        despawn_distance: u64,
        grace_period: u64,
    ) -> (r: Vec<DangerInGrid>)
        requires
            old(self).wf(),
        ensures
            final(self).wf(),
            final(self).next_actor == old(self).next_actor,
            final(self).live@ == survivors(
                old(self).live@,
                players@,
                now,
                despawn_distance,
                grace_period,
            ),
            r@ == retired(old(self).live@, players@, now, despawn_distance, grace_period),
            forall|c: Cell|
                #[trigger] final(self).grid.records_at(c) == old(self).grid.records_at(c)
                    + filed_under(r@, c),
            forall|rec: DangerInGrid|
                #[trigger] final(self).grid.holds(rec) <==> old(self).grid.holds(rec)
                    || r@.contains(rec),
    {
        let mut out: Vec<DangerInGrid> = Vec::new();
        let mut i: usize = 0;
        let ghost mut done: int = 0;
        proof {
            assert(old(self).live@.take(0) =~= Seq::<LiveDanger>::empty());
            assert(old(self).live@.skip(0) =~= old(self).live@);
            assert(self.live@ =~= Seq::<LiveDanger>::empty() + old(self).live@);
            assert forall|c: Cell| #[trigger]
                self.grid.records_at(c) == old(self).grid.records_at(c) + filed_under(out@, c) by {
                assert(old(self).grid.records_at(c) + Seq::<DangerInGrid>::empty() =~= old(
                    self,
                ).grid.records_at(c));
            }
        }
        while i < self.live.len()
            invariant
                self.wf(),
                self.next_actor == old(self).next_actor,
                0 <= done <= old(self).live@.len(),
                i <= self.live@.len(),
                i == survivors(
                    old(self).live@.take(done),
                    players@,
                    now,
                    despawn_distance,
                    grace_period,
                ).len(),
                self.live@ == survivors(
                    old(self).live@.take(done),
                    players@,
                    now,
                    despawn_distance,
                    grace_period,
                ) + old(self).live@.skip(done),
                out@ == retired(
                    old(self).live@.take(done),
                    players@,
                    now,
                    despawn_distance,
                    grace_period,
                ),
                forall|rec: DangerInGrid|
                    #[trigger] self.grid.holds(rec) <==> old(self).grid.holds(rec)
                        || out@.contains(rec),
                forall|c: Cell|
                    #[trigger] self.grid.records_at(c) == old(self).grid.records_at(c)
                        + filed_under(out@, c),
            decreases self.live@.len() - i,
        {
            let ghost kept = survivors(
                old(self).live@.take(done),
                players@,
                now,
                despawn_distance,
                grace_period,
            );
            let ghost before = out@;
            proof {
                assert(done < old(self).live@.len());
                assert(self.live@[i as int] == old(self).live@.skip(done)[0]);
                let next = old(self).live@.take(done + 1);
                assert(next.drop_last() =~= old(self).live@.take(done));
                assert(next.last() == old(self).live@[done]);
            }
            if should_retire(&self.live[i], players, now, despawn_distance, grace_period) {
                let ghost grid_before = self.grid;
                let rec: DangerInGrid = self.retire_at(i);
                out.push(rec);
                proof {
                    assert(out@.drop_last() =~= before);
                    assert(out@.last() == rec);
                    assert forall|c: Cell| #[trigger]
                        self.grid.records_at(c) == old(self).grid.records_at(c) + filed_under(
                            out@,
                            c,
                        ) by {
                        assert(grid_before.records_at(c) == old(self).grid.records_at(c)
                            + filed_under(before, c));
                        if c == cell_at(rec.position) {
                            assert(self.grid.records_at(c) =~= old(self).grid.records_at(c)
                                + filed_under(before, c).push(rec));
                        }
                    }
                    assert(self.live@ =~= kept + old(self).live@.skip(done + 1));
                    assert forall|x: DangerInGrid| #[trigger]
                        self.grid.holds(x) <==> old(self).grid.holds(x) || out@.contains(x) by {
                        if before.contains(x) {
                            let a = choose|a: int| 0 <= a < before.len() && before[a] == x;
                            assert(out@[a] == x);
                        }
                        if out@.contains(x) {
                            let a = choose|a: int| 0 <= a < out@.len() && out@[a] == x;
                            if a < before.len() {
                                assert(before[a] == x);
                            }
                        }
                        assert(out@[before.len() as int] == rec);
                    }
                }
            } else {
                proof {
                    assert(self.live@ =~= kept.push(old(self).live@[done]) + old(self).live@.skip(
                        done + 1,
                    ));
                }
                i = i + 1;
            }
            proof {
                done = done + 1;
            }
        }
        proof {
            assert(done == old(self).live@.len()) by {
                assert(self.live@.len() == i + old(self).live@.skip(done).len());
            }
            assert(old(self).live@.take(done) =~= old(self).live@);
            assert(self.live@ =~= survivors(
                old(self).live@,
                players@,
                now,
                despawn_distance,
                grace_period,
            ));
        }
        out
    }

    /// Retires the live actors that are due at time `now`, with the standard
    /// despawn distance and grace period.
    pub fn despawn_danger(&mut self, players: &Vec<Player>, now: u64) -> (r: Vec<DangerInGrid>)
        requires
            old(self).wf(),
        ensures
            final(self).wf(),
            final(self).next_actor == old(self).next_actor,
            final(self).live@ == survivors(
                old(self).live@,
                players@,
                now,
                DESPAWN_DISTANCE,
                GRACE_PERIOD,
            ),
            r@ == retired(old(self).live@, players@, now, DESPAWN_DISTANCE, GRACE_PERIOD),
            forall|c: Cell|
                #[trigger] final(self).grid.records_at(c) == old(self).grid.records_at(c)
                    + filed_under(r@, c),
            forall|rec: DangerInGrid|
                #[trigger] final(self).grid.holds(rec) <==> old(self).grid.holds(rec)
                    || r@.contains(rec),
    {
        self.retire(players, now, DESPAWN_DISTANCE, GRACE_PERIOD)
    }

    /// Lets `dt` milliseconds pass for the restlessness of every live actor
    /// that is not exempt.
    pub fn restlessness_system(&mut self, dt: u32)
        requires
            old(self).wf(),
        ensures
            final(self).wf(),
            final(self).grid == old(self).grid,
            final(self).next_actor == old(self).next_actor,
            final(self).live@.len() == old(self).live@.len(),
            forall|i: int|
                0 <= i < old(self).live@.len() ==> #[trigger] final(self).live@[i] == rested(
                    old(self).live@[i],
                    dt as int,
                ),
    {
        let mut k: usize = 0;
        while k < self.live.len()
            invariant
                k <= self.live@.len(),
                self.live@.len() == old(self).live@.len(),
                self.grid == old(self).grid,
                self.next_actor == old(self).next_actor,
                forall|i: int|
                    0 <= i < k ==> #[trigger] self.live@[i] == rested(old(self).live@[i], dt as int),
                forall|i: int|
                    k <= i < self.live@.len() ==> #[trigger] self.live@[i] == old(self).live@[i],
            decreases self.live@.len() - k,
        {
            if !self.live[k].ignore {
                self.live[k].body.restlessness.accumulate(dt);
            }
            k = k + 1;
        }
        proof {
            old(self).lemma_same_actors_keep_wf(*self);
        }
    }

    /// Counts the age of every exempt live actor from `now`, so that an
    /// actor whose exemption ends starts a full grace period.
    pub fn mark_teleported_danger(&mut self, now: u64)
        requires
            old(self).wf(),
        ensures
            final(self).wf(),
            final(self).grid == old(self).grid,
            final(self).next_actor == old(self).next_actor,
            final(self).live@.len() == old(self).live@.len(),
            forall|i: int|
                0 <= i < old(self).live@.len() ==> #[trigger] final(self).live@[i] == remarked(
                    old(self).live@[i],
                    now,
                ),
    {
        let mut k: usize = 0;
        while k < self.live.len()
            invariant
                k <= self.live@.len(),
                self.live@.len() == old(self).live@.len(),
                self.grid == old(self).grid,
                self.next_actor == old(self).next_actor,
                forall|i: int|
                    0 <= i < k ==> #[trigger] self.live@[i] == remarked(old(self).live@[i], now),
                forall|i: int|
                    k <= i < self.live@.len() ==> #[trigger] self.live@[i] == old(self).live@[i],
            decreases self.live@.len() - k,
        {
            if self.live[k].ignore {
                self.live[k].spawn_time = SpawnTime(now);
            }
            k = k + 1;
        }
        proof {
            old(self).lemma_same_actors_keep_wf(*self);
        }
    }

    /// Lets every live actor think about the players of this tick.
    pub fn think_system(&mut self, players: &Vec<Player>)
        requires
            old(self).wf(),
        ensures
            final(self).wf(),
            final(self).grid == old(self).grid,
            final(self).next_actor == old(self).next_actor,
            final(self).live@.len() == old(self).live@.len(),
            forall|i: int|
                0 <= i < old(self).live@.len() ==> has_thought(
                    old(self).live@[i],
                    #[trigger] final(self).live@[i],
                    players@,
                ),
    {
        let mut k: usize = 0;
        while k < self.live.len()
            invariant
                k <= self.live@.len(),
                self.live@.len() == old(self).live@.len(),
                self.grid == old(self).grid,
                self.next_actor == old(self).next_actor,
                forall|i: int|
                    0 <= i < k ==> has_thought(
                        old(self).live@[i],
                        #[trigger] self.live@[i],
                        players@,
                    ) && self.live@[i].thinker.wf(),
                forall|i: int|
                    k <= i < self.live@.len() ==> #[trigger] self.live@[i] == old(self).live@[i],
                forall|i: int|
                    0 <= i < old(self).live@.len() ==> (#[trigger] old(self).live@[i]).thinker.wf(),
            decreases self.live@.len() - k,
        {
            assert(old(self).live@[k as int].thinker.wf());
            self.live[k].think(players);
            k = k + 1;
        }
        proof {
            old(self).lemma_same_actors_keep_wf(*self);
        }
    }

    /// Runs the current action of every live actor for one tick of `dt`
    /// milliseconds at time `now`. A meander that sets out draws its
    /// direction from `rng`; nothing else is left to chance.
    pub fn action_system(&mut self, players: &Vec<Player>, now: u64, dt: u32, rng: &mut GlobalRng)
        requires
            old(self).wf(),
        ensures
            final(self).wf(),
            final(self).grid == old(self).grid,
            final(self).next_actor == old(self).next_actor,
            final(self).live@.len() == old(self).live@.len(),
            forall|i: int|
                0 <= i < old(self).live@.len() ==> acted_somehow(
                    old(self).live@[i],
                    #[trigger] final(self).live@[i],
                    players@,
                    now,
                    dt as int,
                ),
    {
        let mut k: usize = 0;
        while k < self.live.len()
            invariant
                k <= self.live@.len(),
                self.live@.len() == old(self).live@.len(),
                self.grid == old(self).grid,
                self.next_actor == old(self).next_actor,
                forall|i: int|
                    0 <= i < k ==> self.live@[i].actor == old(self).live@[i].actor && (
                    #[trigger] self.live@[i]).thinker.wf(),
                forall|i: int|
                    0 <= i < k ==> acted_somehow(
                        old(self).live@[i],
                        #[trigger] self.live@[i],
                        players@,
                        now,
                        dt as int,
                    ),
                forall|i: int|
                    k <= i < self.live@.len() ==> #[trigger] self.live@[i] == old(self).live@[i],
                forall|i: int|
                    0 <= i < old(self).live@.len() ==> (#[trigger] old(self).live@[i]).thinker.wf(),
            decreases self.live@.len() - k,
        {
            assert(old(self).live@[k as int].thinker.wf());
            let direction: Moving = if self.live[k].setting_out() {
                random_direction(rng)
            } else {
                Moving { dx: 0, dy: 0 }
            };
            self.live[k].act(players, now, dt, direction);
            assert(has_acted(
                old(self).live@[k as int],
                self.live@[k as int],
                players@,
                now,
                dt as int,
                direction,
            ));
            k = k + 1;
        }
        proof {
            old(self).lemma_same_actors_keep_wf(*self);
        }
    }

    /// Finds the place of live actor `actor` among the live actors; `None`
    /// exactly when it is not live.
    pub fn find_live(&self, actor: u64) -> (r: Option<usize>)
        ensures
            match r {
                Some(i) => {
                    &&& i < self.live@.len()
                    &&& self.live@[i as int].actor == actor
                    &&& forall|j: int| 0 <= j < i ==> (#[trigger] self.live@[j]).actor != actor
                },
                None => !self.is_live(actor),
            },
    {
        let mut k: usize = 0;
        while k < self.live.len()
            invariant
                k <= self.live@.len(),
                forall|i: int| 0 <= i < k ==> (#[trigger] self.live@[i]).actor != actor,
            decreases self.live@.len() - k,
        {
            if self.live[k].actor == actor {
                return Some(k);
            }
            k = k + 1;
        }
        None
    }

    /// Sets or clears the exemption of live actor `actor` and counts its age
    /// from `now`, so that an actor whose exemption ends lives through a
    /// full grace period. Returns whether the actor is live; if it is not,
    /// nothing changes.
    pub fn set_temporary_ignore(&mut self, actor: u64, ignore: bool, now: u64) -> (r: bool)
        requires
            old(self).wf(),
        ensures
            final(self).wf(),
            final(self).grid == old(self).grid,
            final(self).next_actor == old(self).next_actor,
            final(self).live@.len() == old(self).live@.len(),
            r == old(self).is_live(actor),
            forall|i: int|
                0 <= i < old(self).live@.len() ==> #[trigger] final(self).live@[i] == (if old(
                    self,
                ).live@[i].actor == actor {
                    LiveDanger { ignore, spawn_time: SpawnTime(now), ..old(self).live@[i] }
                } else {
                    old(self).live@[i]
                }),
    {
        match self.find_live(actor) {
            None => false,
            Some(k) => {
                self.live[k].ignore = ignore;
                self.live[k].spawn_time = SpawnTime(now);
                proof {
                    assert forall|i: int| 0 <= i < old(self).live@.len() && i != k implies old(
                        self,
                    ).live@[i].actor != actor by {
                        if i < k {
                            assert(old(self).live@[i].actor != old(self).live@[k as int].actor);
                        } else {
                            assert(old(self).live@[k as int].actor != old(self).live@[i].actor);
                        }
                    }
                    old(self).lemma_same_actors_keep_wf(*self);
                }
                true
            },
        }
    }

    /// Tells the engine where live actor `actor` now stands. Returns whether
    /// the actor is live; if it is not, nothing changes.
    pub fn move_live(&mut self, actor: u64, position: Point) -> (r: bool)
        requires
            old(self).wf(),
        ensures
            final(self).wf(),
            final(self).grid == old(self).grid,
            final(self).next_actor == old(self).next_actor,
            final(self).live@.len() == old(self).live@.len(),
            r == old(self).is_live(actor),
            forall|i: int|
                0 <= i < old(self).live@.len() ==> #[trigger] final(self).live@[i] == (if old(
                    self,
                ).live@[i].actor == actor {
                    LiveDanger {
                        body: Body { position, ..old(self).live@[i].body },
                        ..old(self).live@[i]
                    }
                } else {
                    old(self).live@[i]
                }),
    {
        match self.find_live(actor) {
            None => false,
            Some(k) => {
                self.live[k].body.position = position;
                proof {
                    assert forall|i: int| 0 <= i < old(self).live@.len() && i != k implies old(
                        self,
                    ).live@[i].actor != actor by {
                        if i < k {
                            assert(old(self).live@[i].actor != old(self).live@[k as int].actor);
                        } else {
                            assert(old(self).live@[k as int].actor != old(self).live@[i].actor);
                        }
                    }
                    old(self).lemma_same_actors_keep_wf(*self);
                }
                true
            },
        }
    }

    /// Takes the shot that live actor `actor` has under way, as the system
    /// that plays the shot does once it is done. Returns the shot; `None`,
    /// with nothing changed, where the actor is not live or has no shot
    /// under way.
    pub fn consume_shot(&mut self, actor: u64) -> (r: Option<Shot>)
        requires
            old(self).wf(),
        ensures
            final(self).wf(),
            final(self).grid == old(self).grid,
            final(self).next_actor == old(self).next_actor,
            final(self).live@.len() == old(self).live@.len(),
            r.is_some() ==> old(self).is_live(actor),
            forall|i: int|
                0 <= i < old(self).live@.len() ==> #[trigger] final(self).live@[i] == (if old(
                    self,
                ).live@[i].actor == actor {
                    LiveDanger {
                        body: Body { shot: None, ..old(self).live@[i].body },
                        ..old(self).live@[i]
                    }
                } else {
                    old(self).live@[i]
                }),
            forall|i: int|
                0 <= i < old(self).live@.len() && (#[trigger] old(self).live@[i]).actor == actor
                    ==> r == old(self).live@[i].body.shot,
            !old(self).is_live(actor) ==> r.is_none(),
    {
        match self.find_live(actor) {
            None => None,
            Some(k) => {
                let shot: Option<Shot> = self.live[k].body.shot;
                self.live[k].body.shot = None;
                proof {
                    assert forall|i: int| 0 <= i < old(self).live@.len() && i != k implies old(
                        self,
                    ).live@[i].actor != actor by {
                        if i < k {
                            assert(old(self).live@[i].actor != old(self).live@[k as int].actor);
                        } else {
                            assert(old(self).live@[k as int].actor != old(self).live@[i].actor);
                        }
                    }
                    old(self).lemma_same_actors_keep_wf(*self);
                }
                shot
            },
        }
    }

    /// Forgets live actor `actor` altogether, as when the host has destroyed
    /// it: it is then neither live nor pending. Returns whether the actor was
    /// live; if it was not, nothing changes.
    pub fn forget_live(&mut self, actor: u64) -> (r: bool)
        requires
            old(self).wf(),
        ensures
            final(self).wf(),
            final(self).grid == old(self).grid,
            final(self).next_actor == old(self).next_actor,
            r == old(self).is_live(actor),
            !final(self).is_live(actor),
            !r ==> final(self).live@ == old(self).live@,
            r ==> exists|i: int|
                0 <= i < old(self).live@.len() && (#[trigger] old(self).live@[i]).actor == actor
                    && final(self).live@ == old(self).live@.remove(i),
    {
        match self.find_live(actor) {
            None => false,
            Some(k) => {
                self.live.remove(k);
                proof {
                    assert forall|a: int| 0 <= a < self.live@.len() implies {
                        &&& (#[trigger] self.live@[a]).actor != actor
                        &&& self.live@[a].actor < self.next_actor
                        &&& self.live@[a].thinker.wf()
                    } by {
                        let b = if a < k { a } else { a + 1 };
                        assert(self.live@[a] == old(self).live@[b]);
                        if b < k {
                            assert(old(self).live@[b].actor != old(self).live@[k as int].actor);
                        } else {
                            assert(old(self).live@[k as int].actor != old(self).live@[b].actor);
                        }
                    }
                    assert forall|a: int, b: int| 0 <= a < b < self.live@.len() implies (
                    #[trigger] self.live@[a]).actor != (#[trigger] self.live@[b]).actor by {
                        let a0 = if a < k { a } else { a + 1 };
                        let b0 = if b < k { b } else { b + 1 };
                        assert(old(self).live@[a0].actor != old(self).live@[b0].actor);
                    }
                    assert forall|held: DangerInGrid, a: int| #[trigger]
                        self.grid.holds(held) && 0 <= a < self.live@.len() implies (
                    #[trigger] self.live@[a]).actor != held.actor by {
                        let a0 = if a < k { a } else { a + 1 };
                        assert(old(self).live@[a0].actor != held.actor);
                    }
                    assert(old(self).live@[k as int].actor == actor);
                }
                true
            },
        }
    }

    /// Forgets every actor, pending and live, as when a level is torn down.
    /// Handles already handed out are not handed out again.
    pub fn clear(&mut self)
        ensures
            final(self).wf(),
            final(self).grid.is_empty(),
            final(self).live@.len() == 0,
            final(self).next_actor == old(self).next_actor,
    {
        self.grid.clear();
        self.live.clear();
        proof {
            self.grid.lemma_empty_holds_nothing();
        }
    }

    /// No actor is both pending and live, and a live actor has exactly one
    /// entry among the live actors and with it exactly one action state.
    pub proof fn lemma_pending_xor_live(self, a: u64)
        requires
            self.wf(),
        ensures
            !(self.is_pending(a) && self.is_live(a)),
            forall|i: int, j: int|
                0 <= i < self.live@.len() && 0 <= j < self.live@.len() && self.live@[i].actor == a
                    && self.live@[j].actor == a ==> i == j,
            forall|r1: DangerInGrid, r2: DangerInGrid|
                self.grid.holds(r1) && self.grid.holds(r2) && r1.actor == a && r2.actor == a ==> r1
                    == r2,
    {
        if self.is_pending(a) && self.is_live(a) {
            let rec = choose|rec: DangerInGrid| #[trigger] self.grid.holds(rec) && rec.actor == a;
            let i = choose|i: int| 0 <= i < self.live@.len() && (#[trigger] self.live@[i]).actor == a;
            assert(self.live@[i].actor != rec.actor);
        }
        assert forall|i: int, j: int|
            0 <= i < self.live@.len() && 0 <= j < self.live@.len() && self.live@[i].actor == a
                && self.live@[j].actor == a implies i == j by {
            if i < j {
                assert(self.live@[i].actor != self.live@[j].actor);
            }
            if j < i {
                assert(self.live@[j].actor != self.live@[i].actor);
            }
        }
    }
}

impl Default for Dangers {
    /// A level without actors.
    fn default() -> (r: Dangers)
        ensures
            r.wf(),
            r.grid.is_empty(),
            r.live@.len() == 0,
            r.next_actor == 0,
    {
        Dangers::new()
    }
}

/// An actor promoted, retired and promoted again starts from the same initial
/// conditions as the first time: whatever happened to live actor `first`
/// while it was live, the record it leaves when it retires names the same
/// actor and kind, and the live actor `second` made from that record at time
/// `now` has restlessness zero, an age counted from `now`, no exemption, no
/// movement intent, no shot under way, and a thinker in the state in which
/// that of `first` began.
pub proof fn lemma_round_trip(
    rec: DangerInGrid,
    start: LiveDanger,
    first: LiveDanger,
    second: LiveDanger,
    then: u64,
    now: u64,
)
    requires
        is_fresh(start, rec, then),
        first.actor == start.actor,
        first.kind == start.kind,
        is_fresh(second, record_of(first), now),
    ensures
        second.actor == rec.actor,
        second.kind == rec.kind,
        second.danger == start.danger,
        second.can_move == start.can_move,
        second.spawn_time.0 == now,
        !second.ignore,
        second.body.position == first.body.position,
        second.body.restlessness == start.body.restlessness,
        second.body.restlessness.current_restlessness == 0,
        second.body.moving.is_none(),
        second.body.shot.is_none(),
        second.thinker.picker == start.thinker.picker,
        second.thinker.choices@ == start.thinker.choices@,
        second.thinker.otherwise == start.thinker.otherwise,
        second.thinker.current == start.thinker.current,
        second.thinker.action == start.thinker.action,
        second.thinker.state == start.thinker.state,
{
}

} // verus!

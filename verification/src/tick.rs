//! One whole tick of the engine, stage after stage.
//!
//! Activation runs first, so that an actor promoted in a tick thinks and acts
//! in that same tick. Restlessness and exemptions are brought up to date, then
//! every live actor thinks and acts, and retirement runs last.

use vstd::prelude::*;
use bevy_turborand::GlobalRng;
use crate::danger::{
    acted_somehow, has_thought, is_fresh, remarked, rested, retired, survivors, Dangers,
    DESPAWN_DISTANCE, GRACE_PERIOD,
};
use crate::grid::{filed_under, near_any};
use crate::space::{cell_at, Cell};
use crate::records::DangerInGrid;
use crate::targets::Player;

verus! {

/// Activation: the records `promoted`, those of the cells near some player,
/// have left the grid and stand, freshly made, at the end of the live actors.
pub open spec fn activated(
    before: Dangers,
    after: Dangers,
    players: Seq<Player>,
    now: u64,
    promoted: Seq<DangerInGrid>,
) -> bool {
    &&& after.next_actor == before.next_actor
    &&& forall|c: Cell|
        #[trigger] after.grid.records_at(c) == if near_any(players, c) {
            Seq::<DangerInGrid>::empty()
        } else {
            before.grid.records_at(c)
        }
    &&& forall|rec: DangerInGrid|
        #[trigger] promoted.contains(rec) <==> before.grid.holds(rec) && near_any(
            players,
            cell_at(rec.position),
        )
    &&& forall|i: int, j: int|
        0 <= i < j < promoted.len() ==> (#[trigger] promoted[i]).actor != (
        #[trigger] promoted[j]).actor
    &&& promoted == before.grid.scan_records(players, 9 * (players.len() as int))
    &&& after.live@.len() == before.live@.len() + promoted.len()
    &&& forall|i: int| 0 <= i < before.live@.len() ==> #[trigger] after.live@[i] == before.live@[i]
    &&& forall|i: int|
        0 <= i < promoted.len() ==> is_fresh(
            after.live@[before.live@.len() + i],
            #[trigger] promoted[i],
            now,
        )
}

/// Whether `after` has the grid, the handle counter and the number of live
/// actors of `before`.
pub open spec fn same_frame(before: Dangers, after: Dangers) -> bool {
    &&& after.grid == before.grid
    &&& after.next_actor == before.next_actor
    &&& after.live@.len() == before.live@.len()
}

/// Bookkeeping: every live actor that is not exempt has gained restlessness
/// for `dt` milliseconds, and every exempt one has its age counted from
/// `now`.
pub open spec fn kept_books(before: Dangers, after: Dangers, now: u64, dt: int) -> bool {
    &&& same_frame(before, after)
    &&& forall|i: int|
        0 <= i < before.live@.len() ==> #[trigger] after.live@[i] == remarked(
            rested(before.live@[i], dt),
            now,
        )
}

/// Decision: every live actor has thought about the players.
pub open spec fn decided(before: Dangers, after: Dangers, players: Seq<Player>) -> bool {
    &&& same_frame(before, after)
    &&& forall|i: int|
        0 <= i < before.live@.len() ==> has_thought(
            before.live@[i],
            #[trigger] after.live@[i],
            players,
        )
}

/// Action: every live actor's running action has run for one tick.
pub open spec fn performed(
    before: Dangers,
    after: Dangers,
    players: Seq<Player>,
    now: u64,
    dt: int,
) -> bool {
    &&& same_frame(before, after)
    &&& forall|i: int|
        0 <= i < before.live@.len() ==> acted_somehow(
            before.live@[i],
            #[trigger] after.live@[i],
            players,
            now,
            dt,
        )
}

/// Retirement: the live actors that were due have left the live actors, and
/// their records, `demoted`, have joined the grid.
pub open spec fn retirement(
    before: Dangers,
    after: Dangers,
    players: Seq<Player>,
    now: u64,
    demoted: Seq<DangerInGrid>,
) -> bool {
    &&& after.next_actor == before.next_actor
    &&& after.live@ == survivors(before.live@, players, now, DESPAWN_DISTANCE, GRACE_PERIOD)
    &&& demoted == retired(before.live@, players, now, DESPAWN_DISTANCE, GRACE_PERIOD)
    &&& forall|c: Cell|
        #[trigger] after.grid.records_at(c) == before.grid.records_at(c) + filed_under(demoted, c)
    &&& forall|rec: DangerInGrid|
        #[trigger] after.grid.holds(rec) <==> before.grid.holds(rec) || demoted.contains(rec)
}

/// The stages of one tick in their order, with the state between each two.
pub open spec fn stages(
    start: Dangers,
    s1: Dangers,
    s2: Dangers,
    s3: Dangers,
    s4: Dangers,
    end: Dangers,
    players: Seq<Player>,
    now: u64,
    dt: int,
    promoted: Seq<DangerInGrid>,
    demoted: Seq<DangerInGrid>,
) -> bool {
    &&& activated(start, s1, players, now, promoted)
    &&& kept_books(s1, s2, now, dt)
    &&& decided(s2, s3, players)
    &&& performed(s3, s4, players, now, dt)
    &&& retirement(s4, end, players, now, demoted)
}

/// Whether `end` is what one tick makes of `start`.
pub open spec fn ticked(
    start: Dangers,
    end: Dangers,
    players: Seq<Player>,
    now: u64,
    dt: int,
    promoted: Seq<DangerInGrid>,
    demoted: Seq<DangerInGrid>,
) -> bool {
    exists|s1: Dangers, s2: Dangers, s3: Dangers, s4: Dangers| #[trigger]
        stages(start, s1, s2, s3, s4, end, players, now, dt, promoted, demoted)
}

/// An actor promoted in a tick takes part in the same tick: the live actor
/// made from the `i`-th promoted record does that tick's bookkeeping, thinks
/// and acts before retirement is considered.
pub proof fn lemma_promoted_actor_takes_part(
    start: Dangers,
    s1: Dangers,
    s2: Dangers,
    s3: Dangers,
    s4: Dangers,
    end: Dangers,
    players: Seq<Player>,
    now: u64,
    dt: int,
    promoted: Seq<DangerInGrid>,
    demoted: Seq<DangerInGrid>,
    i: int,
)
    requires
        stages(start, s1, s2, s3, s4, end, players, now, dt, promoted, demoted),
        0 <= i < promoted.len(),
    ensures
        is_fresh(s1.live@[start.live@.len() + i], promoted[i], now),
        s2.live@[start.live@.len() + i] == remarked(rested(s1.live@[start.live@.len() + i], dt), now),
        has_thought(s2.live@[start.live@.len() + i], s3.live@[start.live@.len() + i], players),
        acted_somehow(
            s3.live@[start.live@.len() + i],
            s4.live@[start.live@.len() + i],
            players,
            now,
            dt,
        ),
        s4.live@[start.live@.len() + i].actor == promoted[i].actor,
{
    let k = start.live@.len() + i;
    assert(is_fresh(s1.live@[k], promoted[i], now));
    assert(s2.live@[k] == remarked(rested(s1.live@[k], dt), now));
    assert(has_thought(s2.live@[k], s3.live@[k], players));
    assert(acted_somehow(s3.live@[k], s4.live@[k], players, now, dt));
}

/// Runs one tick of `dt` milliseconds at time `now`: activation, then
/// bookkeeping, decision and action for every live actor, then retirement.
/// Returns the records promoted and the records of the actors retired.
pub fn tick(
    dangers: &mut Dangers,
    players: &Vec<Player>,
    now: u64,
    dt: u32,
    rng: &mut GlobalRng,
) -> (r: (Vec<DangerInGrid>, Vec<DangerInGrid>))
    requires
        old(dangers).wf(),
    ensures
        final(dangers).wf(),
        ticked(*old(dangers), *final(dangers), players@, now, dt as int, r.0@, r.1@),
{
    let promoted: Vec<DangerInGrid> = dangers.spawn_danger(players, now);
    let ghost s1 = *dangers;
    dangers.restlessness_system(dt);
    dangers.mark_teleported_danger(now);
    let ghost s2 = *dangers;
    dangers.think_system(players);
    let ghost s3 = *dangers;
    dangers.action_system(players, now, dt, rng);
    let ghost s4 = *dangers;
    let demoted: Vec<DangerInGrid> = dangers.despawn_danger(players, now);
    proof {
        assert(activated(*old(dangers), s1, players@, now, promoted@));
        assert(kept_books(s1, s2, now, dt as int));
        assert(decided(s2, s3, players@));
        assert(performed(s3, s4, players@, now, dt as int));
        assert(retirement(s4, *dangers, players@, now, demoted@));
        assert(stages(
            *old(dangers),
            s1,
            s2,
            s3,
            s4,
            *dangers,
            players@,
            now,
            dt as int,
            promoted@,
            demoted@,
        ));
    }
    (promoted, demoted)
}

} // verus!

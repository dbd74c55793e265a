//! The action state machines: chasing, shooting, meandering and resting.
//!
//! Every action shares one lifecycle. It starts at `Requested`, runs at
//! `Executing`, and ends at `Success` or `Failure`; `Cancelled` asks a running
//! action to wind up. Each machine is a function from the state before a tick
//! to the state after it, and leaves no movement intent behind once it has
//! ended.

use vstd::prelude::*;
use crate::movement::{heading, heading_to, reverse, reversed, Moving};
use crate::restless::{drained, Restlessness};
use crate::scorers::excess;
use crate::space::{dist, distance, Point};
use crate::targets::{find, find_player, nearest, nearest_player, Player};

verus! {

/// A chase has arrived when its distance to the target differs from the
/// wanted distance by less than this many units.
pub const ARRIVAL_TOLERANCE: u64 = 10;

/// Where an action stands in its lifecycle.
#[derive(Clone, Copy, Debug, PartialEq, Eq, Structural)]
pub enum ActionState {
    Requested,
    Executing,
    Cancelled,
    Success,
    Failure,
}

impl ActionState {
    /// Whether the action has ended.
    pub open spec fn is_terminal(self) -> bool {
        self == ActionState::Success || self == ActionState::Failure
    }

    /// Tells whether the action has ended.
    pub fn terminal(&self) -> (r: bool)
        ensures
            r == self.is_terminal(),
    {
        match self {
            ActionState::Success => true,
            ActionState::Failure => true,
            _ => false,
        }
    }
}

/// A shot an actor has fired and that is still under way: the offset from
/// the shooter to the target when it fired, and the point aimed at.
#[derive(Clone, Copy, Debug, PartialEq, Eq, Structural)]
pub struct Shot {
    pub dx: i64,
    pub dy: i64,
    pub target_point: Point,
}

/// What a live actor carries from tick to tick besides its action.
#[derive(Clone, Copy, Debug)]
pub struct Body {
    pub position: Point,
    pub restlessness: Restlessness,
    pub moving: Option<Moving>,
    pub shot: Option<Shot>,
}

/// Settings and memory of a chase.
#[derive(Clone, Copy, Debug)]
pub struct Chasing {
    /// Give up beyond this distance.
    pub max_distance: u64,
    /// The distance to keep from the target.
    pub target_distance: u64,
    /// The target, once chosen.
    pub player: Option<u64>,
    /// Whether chasing holds restlessness level by cancelling its passive
    /// gain.
    pub drains: bool,
}

/// Settings and memory of a shooting action. Times are in milliseconds.
#[derive(Clone, Copy, Debug)]
pub struct Shooting {
    pub max_range: u64,
    pub too_close: u64,
    /// The target, once chosen.
    pub player: Option<u64>,
    /// When the last shot was fired.
    pub last_shot: u64,
    /// The shortest time between two shots.
    pub shot_speed: u64,
}

/// Settings of a meander.
#[derive(Clone, Copy, Debug, PartialEq, Eq, Structural)]
pub struct Meandering {
    /// Units of restlessness spent per second of wandering.
    pub recovery_per_second: i64,
}

/// The resting action; it has no settings.
#[derive(Clone, Copy, Debug, PartialEq, Eq, Structural)]
pub struct Resting;

/// The target of an action: the one it remembers, else the nearest player.
pub open spec fn resolve_target(cached: Option<u64>, players: Seq<Player>, from: Point) -> Option<
    u64,
> {
    match cached {
        Some(id) => Some(id),
        None => match nearest(players, from) {
            Some(p) => Some(p.id),
            None => None,
        },
    }
}

/// `body` without a movement intent.
pub open spec fn stopped(body: Body) -> Body {
    Body { moving: None, ..body }
}

/// `body` with neither a movement intent nor a shot under way.
pub open spec fn disarmed(body: Body) -> Body {
    Body { moving: None, shot: None, ..body }
}

/// `body` after restlessness was spent for `dt` milliseconds at `rate` units
/// per second on top of its passive gain.
pub open spec fn tired(body: Body, rate: int, dt: int) -> Body {
    Body {
        restlessness: Restlessness {
            current_restlessness: drained(body.restlessness, rate, dt) as i64,
            ..body.restlessness
        },
        ..body
    }
}

/// Whether distance `d` is within the arrival tolerance of `wanted`.
pub open spec fn arrived(d: int, wanted: int) -> bool {
    d - wanted < ARRIVAL_TOLERANCE && wanted - d < ARRIVAL_TOLERANCE
}

/// One tick of a chase that is executing.
pub open spec fn chasing_execute(c: Chasing, body: Body, players: Seq<Player>, dt: int) -> (
    ActionState,
    Chasing,
    Body,
) {
    let spent = if c.drains {
        tired(body, 0, dt)
    } else {
        body
    };
    match resolve_target(c.player, players, body.position) {
        None => (ActionState::Executing, c, spent),
        Some(id) => {
            let locked = Chasing { player: Some(id), ..c };
            match find(players, id) {
                None => (ActionState::Failure, locked, stopped(spent)),
                Some(p) => {
                    let d = dist(body.position, p.position) as int;
                    let towards = heading(body.position, p.position);
                    if arrived(d, c.target_distance as int) {
                        (ActionState::Success, locked, stopped(spent))
                    } else if d > c.max_distance {
                        (ActionState::Failure, locked, stopped(spent))
                    } else if d < c.target_distance {
                        (
                            ActionState::Executing,
                            locked,
                            Body { moving: Some(reversed(towards)), ..spent },
                        )
                    } else {
                        (ActionState::Executing, locked, Body { moving: Some(towards), ..spent })
                    }
                },
            }
        },
    }
}

/// One tick of a chase.
pub open spec fn chasing_step(
    state: ActionState,
    c: Chasing,
    body: Body,
    players: Seq<Player>,
    dt: int,
) -> (ActionState, Chasing, Body) {
    match state {
        ActionState::Requested => (ActionState::Executing, c, body),
        ActionState::Executing => chasing_execute(c, body, players, dt),
        ActionState::Cancelled => (ActionState::Failure, c, stopped(body)),
        ActionState::Success => (ActionState::Success, c, stopped(body)),
        ActionState::Failure => (ActionState::Failure, c, stopped(body)),
    }
}

/// One tick of a shooting action that is executing, at time `now`.
pub open spec fn shooting_execute(s: Shooting, body: Body, players: Seq<Player>, now: u64) -> (
    ActionState,
    Shooting,
    Body,
) {
    if body.shot.is_some() {
        (ActionState::Executing, s, body)
    } else {
        match resolve_target(s.player, players, body.position) {
            None => (ActionState::Executing, s, body),
            Some(id) => {
                let locked = Shooting { player: Some(id), ..s };
                match find(players, id) {
                    None => (ActionState::Failure, locked, stopped(body)),
                    Some(p) => {
                        let d = dist(body.position, p.position) as int;
                        if d > s.max_range || d < s.too_close {
                            (ActionState::Failure, locked, stopped(body))
                        } else if excess(now as int, s.last_shot as int) < s.shot_speed {
                            (ActionState::Executing, locked, body)
                        } else {
                            (
                                ActionState::Executing,
                                Shooting { last_shot: now, ..locked },
                                Body {
                                    shot: Some(
                                        Shot {
                                            dx: (p.position.x - body.position.x) as i64,
                                            dy: (p.position.y - body.position.y) as i64,
                                            target_point: p.position,
                                        },
                                    ),
                                    ..body
                                },
                            )
                        }
                    },
                }
            },
        }
    }
}

/// One tick of a shooting action, at time `now`.
pub open spec fn shooting_step(
    state: ActionState,
    s: Shooting,
    body: Body,
    players: Seq<Player>,
    now: u64,
) -> (ActionState, Shooting, Body) {
    match state {
        ActionState::Requested => (ActionState::Executing, s, body),
        ActionState::Executing => shooting_execute(s, body, players, now),
        ActionState::Cancelled => (ActionState::Failure, s, disarmed(body)),
        ActionState::Success => (ActionState::Success, s, stopped(body)),
        ActionState::Failure => (ActionState::Failure, s, stopped(body)),
    }
}

/// One tick of a meander. `direction` is the freshly drawn direction that a
/// newly requested meander sets out in.
pub open spec fn meandering_step(
    state: ActionState,
    m: Meandering,
    body: Body,
    direction: Moving,
    dt: int,
) -> (ActionState, Body) {
    match state {
        ActionState::Requested => (ActionState::Executing, Body { moving: Some(direction), ..body }),
        ActionState::Executing => if body.restlessness.current_restlessness <= 0 {
            (ActionState::Success, stopped(tired(body, m.recovery_per_second as int, dt)))
        } else {
            (ActionState::Executing, tired(body, m.recovery_per_second as int, dt))
        },
        ActionState::Cancelled => (ActionState::Failure, stopped(body)),
        ActionState::Success => (ActionState::Success, stopped(body)),
        ActionState::Failure => (ActionState::Failure, stopped(body)),
    }
}

/// One tick of resting: it starts, and succeeds on the tick after.
pub open spec fn resting_step(state: ActionState) -> ActionState {
    match state {
        ActionState::Requested => ActionState::Executing,
        ActionState::Executing => ActionState::Success,
        ActionState::Cancelled => ActionState::Success,
        ActionState::Success => ActionState::Success,
        ActionState::Failure => ActionState::Failure,
    }
}

/// An action that has ended, or that was asked to cancel, leaves no movement
/// intent behind, and a cancelled action has ended after one tick. A
/// cancelled shooting action leaves no shot under way either.
pub proof fn lemma_ended_actions_leave_no_intent(
    state: ActionState,
    c: Chasing,
    s: Shooting,
    m: Meandering,
    body: Body,
    players: Seq<Player>,
    now: u64,
    dt: int,
    direction: Moving,
)
    ensures
        chasing_step(state, c, body, players, dt).0.is_terminal() ==> chasing_step(
            state,
            c,
            body,
            players,
            dt,
        ).2.moving.is_none(),
        shooting_step(state, s, body, players, now).0.is_terminal() ==> shooting_step(
            state,
            s,
            body,
            players,
            now,
        ).2.moving.is_none(),
        meandering_step(state, m, body, direction, dt).0.is_terminal() ==> meandering_step(
            state,
            m,
            body,
            direction,
            dt,
        ).1.moving.is_none(),
        state == ActionState::Cancelled ==> {
            &&& chasing_step(state, c, body, players, dt).0.is_terminal()
            &&& shooting_step(state, s, body, players, now).0.is_terminal()
            &&& shooting_step(state, s, body, players, now).2.shot.is_none()
            &&& meandering_step(state, m, body, direction, dt).0.is_terminal()
            &&& resting_step(state).is_terminal()
        },
        state.is_terminal() ==> {
            &&& chasing_step(state, c, body, players, dt).0 == state
            &&& shooting_step(state, s, body, players, now).0 == state
            &&& meandering_step(state, m, body, direction, dt).0 == state
            &&& resting_step(state) == state
        },
{
}

/// Picks the target of an action: the remembered one, else the nearest
/// player.
pub fn resolve(cached: Option<u64>, players: &Vec<Player>, from: Point) -> (r: Option<u64>)
    ensures
        r == resolve_target(cached, players@, from),
{
    match cached {
        Some(id) => Some(id),
        None => match nearest_player(players, from) {
            Some(p) => Some(p.id),
            None => None,
        },
    }
}

/// Advances a chase by one tick of `dt` milliseconds.
pub fn chasing_action_system(
    state: &mut ActionState,
    chasing: &mut Chasing,
    body: &mut Body,
    players: &Vec<Player>,
    dt: u32,
)
    ensures
        (*final(state), *final(chasing), *final(body)) == chasing_step(
            *old(state),
            *old(chasing),
            *old(body),
            players@,
            dt as int,
        ),
{
    match *state {
        ActionState::Requested => {
            *state = ActionState::Executing;
        },
        ActionState::Cancelled => {
            *state = ActionState::Failure;
            body.moving = None;
        },
        ActionState::Executing => {
            let from: Point = body.position;
            if chasing.drains {
                body.restlessness.drain(0, dt);
            }
            match resolve(chasing.player, players, from) {
                None => {},
                Some(id) => {
                    chasing.player = Some(id);
                    match find_player(players, id) {
                        None => {
                            *state = ActionState::Failure;
                            body.moving = None;
                        },
                        Some(p) => {
                            let d: u64 = distance(from, p.position);
                            let wanted: u64 = chasing.target_distance;
                            let near: bool = if d >= wanted {
                                d - wanted < ARRIVAL_TOLERANCE
                            } else {
                                wanted - d < ARRIVAL_TOLERANCE
                            };
                            if near {
                                *state = ActionState::Success;
                                body.moving = None;
                            } else if d > chasing.max_distance {
                                *state = ActionState::Failure;
                                body.moving = None;
                            } else {
                                let towards: Moving = heading_to(from, p.position);
                                if d < wanted {
                                    body.moving = Some(reverse(towards));
                                } else {
                                    body.moving = Some(towards);
                                }
                            }
                        },
                    }
                },
            }
        },
        ActionState::Success => {
            body.moving = None;
        },
        ActionState::Failure => {
            body.moving = None;
        },
    }
}

/// Advances a shooting action by one tick, at time `now` in milliseconds.
pub fn shooting_action_system(
    state: &mut ActionState,
    shooting: &mut Shooting,
    body: &mut Body,
    players: &Vec<Player>,
    now: u64,
)
    ensures
        (*final(state), *final(shooting), *final(body)) == shooting_step(
            *old(state),
            *old(shooting),
            *old(body),
            players@,
            now,
        ),
{
    match *state {
        ActionState::Requested => {
            *state = ActionState::Executing;
        },
        ActionState::Cancelled => {
            *state = ActionState::Failure;
            body.moving = None;
            body.shot = None;
        },
        ActionState::Executing => {
            if body.shot.is_some() {
                return ;
            }
            let from: Point = body.position;
            match resolve(shooting.player, players, from) {
                None => {},
                Some(id) => {
                    shooting.player = Some(id);
                    match find_player(players, id) {
                        None => {
                            *state = ActionState::Failure;
                            body.moving = None;
                        },
                        Some(p) => {
                            let d: u64 = distance(from, p.position);
                            let since: u64 = if now > shooting.last_shot {
                                now - shooting.last_shot
                            } else {
                                0
                            };
                            if d > shooting.max_range || d < shooting.too_close {
                                *state = ActionState::Failure;
                                body.moving = None;
                            } else if since < shooting.shot_speed {
                            } else {
                                shooting.last_shot = now;
                                body.shot = Some(
                                    Shot {
                                        dx: p.position.x as i64 - from.x as i64,
                                        dy: p.position.y as i64 - from.y as i64,
                                        target_point: p.position,
                                    },
                                );
                            }
                        },
                    }
                },
            }
        },
        ActionState::Success => {
            body.moving = None;
        },
        ActionState::Failure => {
            body.moving = None;
        },
    }
}

/// Advances a meander by one tick of `dt` milliseconds. `direction` is used
/// only by a meander that is just setting out.
pub fn meandering_action_system(
    state: &mut ActionState,
    meandering: &Meandering,
    body: &mut Body,
    direction: Moving,
    dt: u32,
)
    ensures
        (*final(state), *final(body)) == meandering_step(
            *old(state),
            *meandering,
            *old(body),
            direction,
            dt as int,
        ),
{
    match *state {
        ActionState::Requested => {
            *state = ActionState::Executing;
            body.moving = Some(direction);
        },
        ActionState::Cancelled => {
            *state = ActionState::Failure;
            body.moving = None;
        },
        ActionState::Executing => {
            if body.restlessness.current_restlessness <= 0 {
                *state = ActionState::Success;
                body.moving = None;
            }
            body.restlessness.drain(meandering.recovery_per_second, dt);
        },
        ActionState::Success => {
            body.moving = None;
        },
        ActionState::Failure => {
            body.moving = None;
        },
    }
}

/// Advances resting by one tick.
pub fn rest_action_system(state: &mut ActionState)
    ensures
        *final(state) == resting_step(*old(state)),
{
    match *state {
        ActionState::Requested => {
            *state = ActionState::Executing;
        },
        ActionState::Executing => {
            *state = ActionState::Success;
        },
        ActionState::Cancelled => {
            *state = ActionState::Success;
        },
        _ => {},
    }
}

} // verus!

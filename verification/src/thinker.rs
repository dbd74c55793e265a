//! The thinker of one actor: its prioritised choices, the action it is
//! running, and the rule by which a new winner replaces it.
//!
//! A thinker always owns exactly one action. A different winner never takes
//! over a running action directly: the running action is first asked to
//! cancel, winds up within the same tick, and only an action that has ended is
//! replaced by a fresh one at `Requested`.

use vstd::prelude::*;
use crate::actions::{
    chasing_action_system, chasing_step, meandering_action_system, meandering_step,
    rest_action_system, resting_step, shooting_action_system, shooting_step, ActionState, Body,
    Chasing, Meandering, Resting, Shooting,
};
use crate::movement::Moving;
use crate::picker::{first_to_score, lemma_first_to_score, FirstToScore};
use crate::scorers::{
    chase_scored, chase_scorer_system, restless_score_spec, restless_scorer_system, shoot_scored,
    shoot_scorer_system, Chase, Restless, Shoot,
};
use crate::targets::Player;

verus! {

/// The behaviours an actor can show.
#[derive(Clone, Copy, Debug, PartialEq, Eq, Structural)]
pub enum Behavior {
    Chasing,
    Shooting,
    Meandering,
    Resting,
}

/// A scorer with its settings.
#[derive(Clone, Copy, Debug, PartialEq, Eq, Structural)]
pub enum Scorer {
    Chase(Chase),
    Shoot(Shoot),
    Restless(Restless),
}

/// An action with its settings and memory.
#[derive(Clone, Copy, Debug)]
pub enum Action {
    Chasing(Chasing),
    Shooting(Shooting),
    Meandering(Meandering),
    Resting(Resting),
}

/// One entry of the priority list: a scorer and the action it stands for.
#[derive(Clone, Copy, Debug)]
pub struct Choice {
    pub scorer: Scorer,
    pub action: Action,
}

/// Why a configuration was turned down.
#[derive(Clone, Copy, Debug, PartialEq, Eq, Structural)]
pub enum ConfigError {
    /// The scorer at this place of the priority list has no action of its
    /// behaviour among the configured actions.
    NoMatchingAction(usize),
}

impl Scorer {
    /// The behaviour that this scorer speaks for.
    pub open spec fn serves(self) -> Behavior {
        match self {
            Scorer::Chase(_) => Behavior::Chasing,
            Scorer::Shoot(_) => Behavior::Shooting,
            Scorer::Restless(_) => Behavior::Meandering,
        }
    }

    /// The score of this scorer for an actor with `body`, in thousandths.
    pub open spec fn scored(self, body: Body, players: Seq<Player>) -> int {
        match self {
            Scorer::Chase(c) => chase_scored(c, body.position, players),
            Scorer::Shoot(s) => shoot_scored(s, body.position, body.shot.is_some(), players),
            Scorer::Restless(_) => restless_score_spec(
                body.restlessness.current_restlessness as int,
            ),
        }
    }

    /// Tells which behaviour this scorer speaks for.
    pub fn behavior(&self) -> (r: Behavior)
        ensures
            r == self.serves(),
    {
        match self {
            Scorer::Chase(_) => Behavior::Chasing,
            Scorer::Shoot(_) => Behavior::Shooting,
            Scorer::Restless(_) => Behavior::Meandering,
        }
    }

    /// Scores an actor with `body` against the players of this tick.
    pub fn score(&self, body: &Body, players: &Vec<Player>) -> (r: u32)
        ensures
            r == self.scored(*body, players@),
            r <= 1000,
    {
        match self {
            Scorer::Chase(c) => chase_scorer_system(c, body.position, players),
            Scorer::Shoot(s) => shoot_scorer_system(s, body.position, body.shot.is_some(), players),
            Scorer::Restless(_) => restless_scorer_system(&body.restlessness),
        }
    }
}

impl Action {
    /// The behaviour that this action shows.
    pub open spec fn kind(self) -> Behavior {
        match self {
            Action::Chasing(_) => Behavior::Chasing,
            Action::Shooting(_) => Behavior::Shooting,
            Action::Meandering(_) => Behavior::Meandering,
            Action::Resting(_) => Behavior::Resting,
        }
    }

    /// Tells which behaviour this action shows.
    pub fn behavior(&self) -> (r: Behavior)
        ensures
            r == self.kind(),
    {
        match self {
            Action::Chasing(_) => Behavior::Chasing,
            Action::Shooting(_) => Behavior::Shooting,
            Action::Meandering(_) => Behavior::Meandering,
            Action::Resting(_) => Behavior::Resting,
        }
    }
}

/// The first of `actions` that shows behaviour `b`, if any.
pub open spec fn matching_action(actions: Seq<Action>, b: Behavior) -> Option<Action>
    decreases actions.len(),
{
    if actions.len() == 0 {
        None
    } else if actions[0].kind() == b {
        Some(actions[0])
    } else {
        matching_action(actions.drop_first(), b)
    }
}

/// Whether each of the first `upto` scorers has a matching action.
pub open spec fn all_matched(priority: Seq<Scorer>, actions: Seq<Action>, upto: int) -> bool {
    forall|i: int|
        0 <= i < upto ==> matching_action(actions, (#[trigger] priority[i]).serves()).is_some()
}

/// The choice that the scorer at place `i` forms with its matching action.
pub open spec fn paired(priority: Seq<Scorer>, actions: Seq<Action>, i: int) -> Choice {
    Choice {
        scorer: priority[i],
        action: matching_action(actions, priority[i].serves()).unwrap(),
    }
}

/// The scores of all choices, in priority order.
pub open spec fn scores_of(choices: Seq<Choice>, body: Body, players: Seq<Player>) -> Seq<u32> {
    Seq::new(choices.len(), |i: int| choices[i].scorer.scored(body, players) as u32)
}

/// One tick of whichever action is running.
pub open spec fn act_spec(
    action: Action,
    state: ActionState,
    body: Body,
    players: Seq<Player>,
    now: u64,
    dt: int,
    direction: Moving,
) -> (Action, ActionState, Body) {
    match action {
        Action::Chasing(c) => {
            let (s, c2, b) = chasing_step(state, c, body, players, dt);
            (Action::Chasing(c2), s, b)
        },
        Action::Shooting(sh) => {
            let (s, sh2, b) = shooting_step(state, sh, body, players, now);
            (Action::Shooting(sh2), s, b)
        },
        Action::Meandering(m) => {
            let (s, b) = meandering_step(state, m, body, direction, dt);
            (action, s, b)
        },
        Action::Resting(_) => (action, resting_step(state), body),
    }
}

/// The pick depends on nothing but the priority list, the threshold and the
/// scores: two thinkers with the same choices and threshold whose scorers
/// come to the same scores pick the same winner, whatever each is running.
pub proof fn lemma_pick_is_deterministic(
    a: Thinker,
    b: Thinker,
    body_a: Body,
    body_b: Body,
    players_a: Seq<Player>,
    players_b: Seq<Player>,
)
    requires
        a.picker == b.picker,
        a.choices@ == b.choices@,
        a.otherwise == b.otherwise,
        forall|i: int|
            0 <= i < a.choices@.len() ==> (#[trigger] a.choices@[i]).scorer.scored(
                body_a,
                players_a,
            ) == b.choices@[i].scorer.scored(body_b, players_b),
    ensures
        a.winner(body_a, players_a) == b.winner(body_b, players_b),
        a.configured(a.winner(body_a, players_a)) == b.configured(b.winner(body_b, players_b)),
{
    assert(scores_of(a.choices@, body_a, players_a) =~= scores_of(b.choices@, body_b, players_b));
}

/// The thinker owns one action through its whole lifecycle. It replaces only
/// an action that has ended, and what it then runs is the configured action
/// of the winner, requested. While the running action has not ended the
/// thinker keeps it, and at most asks it to cancel, which it does exactly
/// when another choice has won.
pub proof fn lemma_thinker_lifecycle(t: Thinker, body: Body, players: Seq<Player>)
    requires
        t.wf(),
    ensures
        t.state.is_terminal() ==> t.thought(body, players) == (
            t.winner(body, players),
            t.configured(t.winner(body, players)),
            ActionState::Requested,
        ),
        !t.state.is_terminal() ==> {
            &&& t.thought(body, players).0 == t.current
            &&& t.thought(body, players).1 == t.action
            &&& t.thought(body, players).2 == if t.winner(body, players) != t.current {
                ActionState::Cancelled
            } else {
                t.state
            }
        },
        0 <= t.winner(body, players) <= t.choices@.len(),
{
    lemma_first_to_score(scores_of(t.choices@, body, players), t.picker.threshold);
}

/// Finds the first of `actions` that shows behaviour `b`.
pub fn find_action(actions: &Vec<Action>, b: Behavior) -> (r: Option<Action>)
    ensures
        r == matching_action(actions@, b),
{
    let mut k: usize = 0;
    proof {
        assert(actions@.skip(0) =~= actions@);
    }
    while k < actions.len()
        invariant
            k <= actions.len(),
            matching_action(actions@, b) == matching_action(actions@.skip(k as int), b),
        decreases actions.len() - k,
    {
        let a: Action = actions[k];
        proof {
            let tail = actions@.skip(k as int);
            assert(tail[0] == a);
            assert(tail.drop_first() =~= actions@.skip(k + 1));
        }
        if a.behavior() == b {
            return Some(a);
        }
        k = k + 1;
    }
    None
}

/// The decision maker of one actor.
#[derive(Debug)]
pub struct Thinker {
    /// The picker and its threshold.
    pub picker: FirstToScore,
    /// The choices, highest priority first.
    pub choices: Vec<Choice>,
    /// The action taken when no choice reaches the threshold.
    pub otherwise: Action,
    /// The place of the running action among the choices, or their number
    /// when the fallback is running.
    pub current: usize,
    /// The running action.
    pub action: Action,
    /// The state of the running action.
    pub state: ActionState,
}

impl Thinker {
    /// The action configured at place `i`: that of the choice there, or the
    /// fallback for any place past the choices.
    pub open spec fn configured(self, i: int) -> Action {
        if 0 <= i < self.choices@.len() {
            self.choices@[i].action
        } else {
            self.otherwise
        }
    }

    /// The running action is an instance of the configured action at its
    /// place.
    pub open spec fn wf(self) -> bool {
        &&& self.current <= self.choices@.len()
        &&& self.action.kind() == self.configured(self.current as int).kind()
    }

    /// The place of the winner for an actor with `body`: that of the first
    /// choice whose score reaches the threshold, or the number of choices
    /// where the fallback wins.
    pub open spec fn winner(self, body: Body, players: Seq<Player>) -> int {
        match first_to_score(scores_of(self.choices@, body, players), self.picker.threshold) {
            Some(i) => i,
            None => self.choices@.len() as int,
        }
    }

    /// What the thinker runs after it has thought: place, action and state.
    pub open spec fn thought(self, body: Body, players: Seq<Player>) -> (int, Action, ActionState) {
        let w = self.winner(body, players);
        if self.state.is_terminal() {
            (w, self.configured(w), ActionState::Requested)
        } else if w != self.current && self.state != ActionState::Cancelled {
            (self.current as int, self.action, ActionState::Cancelled)
        } else {
            (self.current as int, self.action, self.state)
        }
    }

    /// The same configuration with another running action.
    pub open spec fn same_config(self, other: Thinker) -> bool {
        &&& self.picker == other.picker
        &&& self.choices@ == other.choices@
        &&& self.otherwise == other.otherwise
    }

    /// Builds a thinker from a priority list of scorers and a set of actions.
    /// Each scorer is paired with the first action of its behaviour. The
    /// thinker starts out with the fallback requested.
    pub fn build(
        picker: FirstToScore,
        priority: &Vec<Scorer>,
        actions: &Vec<Action>,
        otherwise: Action,
    ) -> (r: Result<Thinker, ConfigError>)
        ensures
            match r {
                Ok(t) => {
                    &&& all_matched(priority@, actions@, priority@.len() as int)
                    &&& t.picker == picker
                    &&& t.otherwise == otherwise
                    &&& t.choices@.len() == priority@.len()
                    &&& forall|i: int|
                        0 <= i < priority@.len() ==> #[trigger] t.choices@[i] == paired(
                            priority@,
                            actions@,
                            i,
                        )
                    &&& t.current == priority@.len()
                    &&& t.action == otherwise
                    &&& t.state == ActionState::Requested
                    &&& t.wf()
                },
                Err(ConfigError::NoMatchingAction(i)) => {
                    &&& i < priority@.len()
                    &&& all_matched(priority@, actions@, i as int)
                    &&& matching_action(actions@, priority@[i as int].serves()).is_none()
                },
            },
    {
        let mut choices: Vec<Choice> = Vec::new();
        let mut k: usize = 0;
        while k < priority.len()
            invariant
                k <= priority.len(),
                choices@.len() == k,
                all_matched(priority@, actions@, k as int),
                forall|i: int|
                    0 <= i < k ==> #[trigger] choices@[i] == paired(priority@, actions@, i),
            decreases priority.len() - k,
        {
            let scorer: Scorer = priority[k];
            match find_action(actions, scorer.behavior()) {
                None => {
                    return Err(ConfigError::NoMatchingAction(k));
                },
                Some(action) => {
                    choices.push(Choice { scorer, action });
                },
            }
            k = k + 1;
        }
        Ok(
            Thinker {
                picker,
                choices,
                otherwise,
                current: k,
                action: otherwise,
                state: ActionState::Requested,
            },
        )
    }

    /// The behaviour of the running action.
    pub fn current_behavior(&self) -> (r: Behavior)
        ensures
            r == self.action.kind(),
    {
        self.action.behavior()
    }

    /// Scores every choice for an actor with `body`.
    pub fn evaluate(&self, body: &Body, players: &Vec<Player>) -> (r: Vec<u32>)
        ensures
            r@ == scores_of(self.choices@, *body, players@),
    {
        let mut scores: Vec<u32> = Vec::new();
        let mut k: usize = 0;
        while k < self.choices.len()
            invariant
                k <= self.choices.len(),
                scores@.len() == k,
                forall|i: int|
                    0 <= i < k ==> #[trigger] scores@[i] == scores_of(
                        self.choices@,
                        *body,
                        players@,
                    )[i],
            decreases self.choices.len() - k,
        {
            let s: u32 = self.choices[k].scorer.score(body, players);
            scores.push(s);
            k = k + 1;
        }
        proof {
            assert(scores@ =~= scores_of(self.choices@, *body, players@));
        }
        scores
    }

    /// Thinks for one tick: scores every choice, picks the winner, and lets
    /// it replace an action that has ended or asks a running action that
    /// lost to cancel.
    pub fn think(&mut self, body: &Body, players: &Vec<Player>)
        requires
            old(self).wf(),
        ensures
            final(self).same_config(*old(self)),
            (final(self).current as int, final(self).action, final(self).state) == old(
                self,
            ).thought(*body, players@),
            final(self).wf(),
    {
        let scores: Vec<u32> = self.evaluate(body, players);
        let picked: usize = match self.picker.pick(&scores) {
            Some(i) => i,
            None => self.choices.len(),
        };
        proof {
            lemma_first_to_score(scores@, self.picker.threshold);
        }
        if self.state.terminal() {
            self.current = picked;
            self.action = if picked < self.choices.len() {
                self.choices[picked].action
            } else {
                self.otherwise
            };
            self.state = ActionState::Requested;
        } else if picked != self.current {
            match self.state {
                ActionState::Cancelled => {},
                _ => {
                    self.state = ActionState::Cancelled;
                },
            }
        }
    }

    /// Runs the current action for one tick of `dt` milliseconds at time
    /// `now`. `direction` is the direction a meander sets out in.
    pub fn act(
        &mut self,
        body: &mut Body,
        players: &Vec<Player>,
        now: u64,
        dt: u32,
        direction: Moving,
    )
        requires
            old(self).wf(),
        ensures
            final(self).same_config(*old(self)),
            final(self).current == old(self).current,
            (final(self).action, final(self).state, *final(body)) == act_spec(
                old(self).action,
                old(self).state,
                *old(body),
                players@,
                now,
                dt as int,
                direction,
            ),
            final(self).wf(),
    {
        let mut state: ActionState = self.state;
        match self.action {
            Action::Chasing(c) => {
                let mut chasing: Chasing = c;
                chasing_action_system(&mut state, &mut chasing, body, players, dt);
                self.action = Action::Chasing(chasing);
            },
            Action::Shooting(s) => {
                let mut shooting: Shooting = s;
                shooting_action_system(&mut state, &mut shooting, body, players, now);
                self.action = Action::Shooting(shooting);
            },
            Action::Meandering(m) => {
                meandering_action_system(&mut state, &m, body, direction, dt);
            },
            Action::Resting(_) => {
                rest_action_system(&mut state);
            },
        }
        self.state = state;
    }
}

} // verus!

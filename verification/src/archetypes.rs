//! The table of archetypes: for each kind of hostile actor its size, speed,
//! restlessness and the prioritised behaviours of its thinker.
//!
//! Distances are whole world units, rates are units per second and times are
//! milliseconds.

use vstd::prelude::*;
use crate::actions::{ActionState, Chasing, Meandering, Resting, Shooting};
use crate::picker::FirstToScore;
use crate::scorers::{Chase, Restless, Shoot};
use crate::records::DangerType;
use crate::thinker::{
    all_matched, matching_action, paired, Action, Choice, Scorer, Thinker,
};

verus! {

/// The score, in thousandths, that a behaviour must reach to win.
pub const THRESHOLD: u32 = 800;

/// The radius within which an actor is dangerous.
#[derive(Clone, Copy, Debug, PartialEq, Eq, Structural)]
pub struct Danger(pub u32);

/// How fast an actor moves, in units per second.
#[derive(Clone, Copy, Debug, PartialEq, Eq, Structural)]
pub struct CanMove {
    pub move_speed: u32,
}

/// The radius of an actor of kind `kind`.
pub open spec fn radius_of(kind: DangerType) -> u32 {
    match kind {
        DangerType::HolyHulk => 20,
        DangerType::GuardianAngel => 20,
        DangerType::LumberingDevil => 20,
        _ => 10,
    }
}

/// The speed of an actor of kind `kind`.
pub open spec fn speed_of(kind: DangerType) -> u32 {
    match kind {
        DangerType::HolyHulk => 50,
        DangerType::GuardianAngel => 150,
        DangerType::LumberingDevil => 40,
        _ => 200,
    }
}

/// The restlessness an actor of kind `kind` gains per second.
pub open spec fn rate_of(kind: DangerType) -> i64 {
    match kind {
        DangerType::GuardianAngel => 0,
        DangerType::LumberingDevil => 20,
        _ => 25,
    }
}

/// A chase scorer with the action it calls for.
pub open spec fn chase_pair(trigger: u64, give_up: u64, target: u64, drains: bool) -> (
    Scorer,
    Action,
) {
    (
        Scorer::Chase(
            Chase { trigger_distance: trigger, max_distance: give_up, target_distance: target },
        ),
        Action::Chasing(
            Chasing { max_distance: give_up, target_distance: target, player: None, drains },
        ),
    )
}

/// The chase of an actor of kind `kind`, if it has one.
pub open spec fn chase_of(kind: DangerType) -> Option<(Scorer, Action)> {
    match kind {
        DangerType::HolyHulk => Some(chase_pair(200, 300, 0, true)),
        DangerType::GuardianAngel => Some(chase_pair(75, 100, 0, false)),
        DangerType::LumberingDevil => Some(chase_pair(300, 500, 0, true)),
        DangerType::StealthySeraphim => Some(
            (
                Scorer::Chase(
                    Chase { trigger_distance: 400, max_distance: 500, target_distance: 90 },
                ),
                Action::Chasing(
                    Chasing { max_distance: 500, target_distance: 90, player: None, drains: true },
                ),
            ),
        ),
        DangerType::AngelicArcher => Some(
            (
                Scorer::Chase(
                    Chase { trigger_distance: 600, max_distance: 700, target_distance: 150 },
                ),
                Action::Chasing(
                    Chasing { max_distance: 600, target_distance: 150, player: None, drains: true },
                ),
            ),
        ),
        DangerType::DivineDetonator => None,
    }
}

/// A shoot scorer with the action it calls for; the weapon needs six seconds
/// between shots.
pub open spec fn shoot_pair(max_range: u64, too_close: u64, preferred: u64) -> (Scorer, Action) {
    (
        Scorer::Shoot(Shoot { max_range, too_close, preferred_distance: preferred }),
        Action::Shooting(
            Shooting { max_range, too_close, player: None, last_shot: 0, shot_speed: 6000 },
        ),
    )
}

/// The shooting of an actor of kind `kind`, if it shoots.
pub open spec fn shoot_of(kind: DangerType) -> Option<(Scorer, Action)> {
    match kind {
        DangerType::StealthySeraphim => Some(shoot_pair(140, 70, 90)),
        DangerType::AngelicArcher => Some(shoot_pair(300, 100, 150)),
        DangerType::DivineDetonator => Some(shoot_pair(250, 0, 90)),
        _ => None,
    }
}

/// The restless scorer with a meander that spends `recovery` units per
/// second.
pub open spec fn meander_pair(recovery: i64) -> (Scorer, Action) {
    (Scorer::Restless(Restless), Action::Meandering(Meandering { recovery_per_second: recovery }))
}

/// The meander of an actor of kind `kind`, if it wanders.
pub open spec fn meander_of(kind: DangerType) -> Option<(Scorer, Action)> {
    match kind {
        DangerType::HolyHulk => Some(meander_pair(35)),
        DangerType::LumberingDevil => Some(meander_pair(65)),
        _ => None,
    }
}

/// `s` with the entry of `p` added, if there is one.
pub open spec fn with_pair<T>(s: Seq<T>, p: Option<T>) -> Seq<T> {
    match p {
        Some(x) => s.push(x),
        None => s,
    }
}

/// The scorers of an actor of kind `kind` with their actions, highest
/// priority first: shooting before chasing before meandering.
pub open spec fn pairs_of(kind: DangerType) -> Seq<(Scorer, Action)> {
    with_pair(with_pair(with_pair(Seq::empty(), shoot_of(kind)), chase_of(kind)), meander_of(kind))
}

/// The priority list of an actor of kind `kind`.
pub open spec fn priority_of(kind: DangerType) -> Seq<Scorer> {
    Seq::new(pairs_of(kind).len(), |i: int| pairs_of(kind)[i].0)
}

/// The configured actions of an actor of kind `kind`, in the order of its
/// priority list.
pub open spec fn actions_of(kind: DangerType) -> Seq<Action> {
    Seq::new(pairs_of(kind).len(), |i: int| pairs_of(kind)[i].1)
}

/// The choices of an actor of kind `kind`.
pub open spec fn choices_of(kind: DangerType) -> Seq<Choice> {
    Seq::new(
        pairs_of(kind).len(),
        |i: int| Choice { scorer: pairs_of(kind)[i].0, action: pairs_of(kind)[i].1 },
    )
}

/// The fallback of every archetype.
pub open spec fn fallback() -> Action {
    Action::Resting(Resting)
}

/// Gives the radius of an actor of kind `kind`.
pub fn danger_of(kind: DangerType) -> (r: Danger)
    ensures
        r.0 == radius_of(kind),
{
    match kind {
        DangerType::HolyHulk => Danger(20),
        DangerType::GuardianAngel => Danger(20),
        DangerType::LumberingDevil => Danger(20),
        _ => Danger(10),
    }
}

/// Gives the speed of an actor of kind `kind`.
pub fn movement_of(kind: DangerType) -> (r: CanMove)
    ensures
        r.move_speed == speed_of(kind),
{
    match kind {
        DangerType::HolyHulk => CanMove { move_speed: 50 },
        DangerType::GuardianAngel => CanMove { move_speed: 150 },
        DangerType::LumberingDevil => CanMove { move_speed: 40 },
        _ => CanMove { move_speed: 200 },
    }
}

/// Gives the restlessness an actor of kind `kind` gains per second.
pub fn restlessness_rate(kind: DangerType) -> (r: i64)
    ensures
        r == rate_of(kind),
{
    match kind {
        DangerType::GuardianAngel => 0,
        DangerType::LumberingDevil => 20,
        _ => 25,
    }
}

fn chase_entry(trigger: u64, give_up: u64, target: u64, drains: bool) -> (r: (Scorer, Action))
    ensures
        r == chase_pair(trigger, give_up, target, drains),
{
    (
        Scorer::Chase(
            Chase { trigger_distance: trigger, max_distance: give_up, target_distance: target },
        ),
        Action::Chasing(
            Chasing { max_distance: give_up, target_distance: target, player: None, drains },
        ),
    )
}

fn shoot_entry(max_range: u64, too_close: u64, preferred: u64) -> (r: (Scorer, Action))
    ensures
        r == shoot_pair(max_range, too_close, preferred),
{
    (
        Scorer::Shoot(Shoot { max_range, too_close, preferred_distance: preferred }),
        Action::Shooting(
            Shooting { max_range, too_close, player: None, last_shot: 0, shot_speed: 6000 },
        ),
    )
}

/// Lists the scorers of an actor of kind `kind` with their actions, highest
/// priority first.
pub fn archetype_pairs(kind: DangerType) -> (r: Vec<(Scorer, Action)>)
    ensures
        r@ == pairs_of(kind),
{
    let mut pairs: Vec<(Scorer, Action)> = Vec::new();
    match kind {
        DangerType::StealthySeraphim => {
            pairs.push(shoot_entry(140, 70, 90));
        },
        DangerType::AngelicArcher => {
            pairs.push(shoot_entry(300, 100, 150));
        },
        DangerType::DivineDetonator => {
            pairs.push(shoot_entry(250, 0, 90));
        },
        _ => {},
    }
    match kind {
        DangerType::HolyHulk => {
            pairs.push(chase_entry(200, 300, 0, true));
        },
        DangerType::GuardianAngel => {
            pairs.push(chase_entry(75, 100, 0, false));
        },
        DangerType::LumberingDevil => {
            pairs.push(chase_entry(300, 500, 0, true));
        },
        DangerType::StealthySeraphim => {
            pairs.push(
                (
                    Scorer::Chase(
                        Chase { trigger_distance: 400, max_distance: 500, target_distance: 90 },
                    ),
                    Action::Chasing(
                        Chasing {
                            max_distance: 500,
                            target_distance: 90,
                            player: None,
                            drains: true,
                        },
                    ),
                ),
            );
        },
        DangerType::AngelicArcher => {
            pairs.push(
                (
                    Scorer::Chase(
                        Chase { trigger_distance: 600, max_distance: 700, target_distance: 150 },
                    ),
                    Action::Chasing(
                        Chasing {
                            max_distance: 600,
                            target_distance: 150,
                            player: None,
                            drains: true,
                        },
                    ),
                ),
            );
        },
        DangerType::DivineDetonator => {},
    }
    match kind {
        DangerType::HolyHulk => {
            pairs.push(
                (
                    Scorer::Restless(Restless),
                    Action::Meandering(Meandering { recovery_per_second: 35 }),
                ),
            );
        },
        DangerType::LumberingDevil => {
            pairs.push(
                (
                    Scorer::Restless(Restless),
                    Action::Meandering(Meandering { recovery_per_second: 65 }),
                ),
            );
        },
        _ => {},
    }
    pairs
}

/// An action is the first of its behaviour in a list where no earlier action
/// shows the same behaviour.
pub proof fn lemma_matching_at(actions: Seq<Action>, i: int)
    requires
        0 <= i < actions.len(),
        forall|j: int| 0 <= j < i ==> (#[trigger] actions[j]).kind() != actions[i].kind(),
    ensures
        matching_action(actions, actions[i].kind()) == Some(actions[i]),
    decreases i,
{
    if i > 0 {
        let rest = actions.drop_first();
        assert(rest[i - 1] == actions[i]);
        assert forall|j: int| 0 <= j < i - 1 implies (#[trigger] rest[j]).kind() != rest[i
            - 1].kind() by {
            assert(rest[j] == actions[j + 1]);
        }
        lemma_matching_at(rest, i - 1);
        assert(actions[0].kind() != actions[i].kind());
    }
}

/// Every archetype of the table is a valid configuration: each scorer of its
/// priority list has an action of its behaviour, and pairing the two lists
/// gives the archetype's choices.
pub proof fn lemma_archetype_valid(kind: DangerType)
    ensures
        all_matched(priority_of(kind), actions_of(kind), priority_of(kind).len() as int),
        forall|i: int|
            0 <= i < priority_of(kind).len() ==> #[trigger] paired(
                priority_of(kind),
                actions_of(kind),
                i,
            ) == choices_of(kind)[i],
{
    let pairs = pairs_of(kind);
    let actions = actions_of(kind);
    let priority = priority_of(kind);
    assert forall|i: int| 0 <= i < priority.len() implies {
        &&& matching_action(actions, (#[trigger] priority[i]).serves()).is_some()
        &&& paired(priority, actions, i) == choices_of(kind)[i]
    } by {
        assert(actions[i] == pairs[i].1);
        assert(priority[i] == pairs[i].0);
        assert(actions[i].kind() == priority[i].serves());
        assert forall|j: int| 0 <= j < i implies (#[trigger] actions[j]).kind()
            != actions[i].kind() by {
            assert(actions[j] == pairs[j].1);
        }
        lemma_matching_at(actions, i);
    }
}

/// Builds the thinker of an actor of kind `kind`: its choices in priority
/// order, resting as the fallback, and the fallback requested.
pub fn thinker_for(kind: DangerType) -> (r: Thinker)
    ensures
        r.picker.threshold == THRESHOLD,
        r.choices@ == choices_of(kind),
        r.otherwise == fallback(),
        r.current == r.choices@.len(),
        r.action == fallback(),
        r.state == ActionState::Requested,
        r.wf(),
{
    let pairs: Vec<(Scorer, Action)> = archetype_pairs(kind);
    let mut priority: Vec<Scorer> = Vec::new();
    let mut actions: Vec<Action> = Vec::new();
    let mut k: usize = 0;
    while k < pairs.len()
        invariant
            k <= pairs.len(),
            pairs@ == pairs_of(kind),
            priority@.len() == k,
            actions@.len() == k,
            forall|i: int| 0 <= i < k ==> #[trigger] priority@[i] == pairs@[i].0,
            forall|i: int| 0 <= i < k ==> #[trigger] actions@[i] == pairs@[i].1,
        decreases pairs.len() - k,
    {
        priority.push(pairs[k].0);
        actions.push(pairs[k].1);
        k = k + 1;
    }
    proof {
        assert(priority@ =~= priority_of(kind));
        assert(actions@ =~= actions_of(kind));
        lemma_archetype_valid(kind);
    }
    match Thinker::build(FirstToScore::new(THRESHOLD), &priority, &actions, Action::Resting(Resting)) {
        Ok(t) => {
            proof {
                assert(t.choices@ =~= choices_of(kind));
            }
            t
        },
        Err(_) => {
            proof {
                assert(false);
            }
            vstd::pervasive::unreached()
        },
    }
}

} // verus!

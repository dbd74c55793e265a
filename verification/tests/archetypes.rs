use danger_engine::actions::ActionState;
use danger_engine::archetypes::{
    archetype_pairs, danger_of, movement_of, restlessness_rate, thinker_for, CanMove, Danger,
    THRESHOLD,
};
use danger_engine::scorers::{Chase, Restless, Shoot};
use danger_engine::records::DangerType;
use danger_engine::thinker::{Action, Behavior, Scorer};

const KINDS: [DangerType; 6] = [
    DangerType::LumberingDevil,
    DangerType::HolyHulk,
    DangerType::StealthySeraphim,
    DangerType::GuardianAngel,
    DangerType::AngelicArcher,
    DangerType::DivineDetonator,
];

#[test]
fn the_threshold_is_eight_tenths() {
    assert_eq!(THRESHOLD, 800);
}

#[test]
fn sizes_speeds_and_rates_of_the_archetypes() {
    assert_eq!(danger_of(DangerType::HolyHulk), Danger(20));
    assert_eq!(danger_of(DangerType::GuardianAngel), Danger(20));
    assert_eq!(danger_of(DangerType::StealthySeraphim), Danger(10));
    assert_eq!(danger_of(DangerType::AngelicArcher), Danger(10));
    assert_eq!(danger_of(DangerType::DivineDetonator), Danger(10));
    assert_eq!(movement_of(DangerType::HolyHulk), CanMove { move_speed: 50 });
    assert_eq!(movement_of(DangerType::GuardianAngel), CanMove { move_speed: 150 });
    assert_eq!(movement_of(DangerType::AngelicArcher), CanMove { move_speed: 200 });
    assert_eq!(restlessness_rate(DangerType::HolyHulk), 25);
    assert_eq!(restlessness_rate(DangerType::GuardianAngel), 0);
}

#[test]
fn the_holy_hulk_chases_then_meanders() {
    let pairs = archetype_pairs(DangerType::HolyHulk);
    assert_eq!(pairs.len(), 2);
    assert_eq!(
        pairs[0].0,
        Scorer::Chase(Chase { trigger_distance: 200, max_distance: 300, target_distance: 0 })
    );
    assert_eq!(pairs[1].0, Scorer::Restless(Restless));
    match pairs[0].1 {
        Action::Chasing(c) => {
            assert_eq!(c.max_distance, 300);
            assert_eq!(c.target_distance, 0);
            assert_eq!(c.player, None);
            assert!(c.drains);
        }
        other => panic!("unexpected action {:?}", other),
    }
    match pairs[1].1 {
        Action::Meandering(m) => assert_eq!(m.recovery_per_second, 35),
        other => panic!("unexpected action {:?}", other),
    }
}

#[test]
fn the_lumbering_devil_chases_then_meanders() {
    assert_eq!(danger_of(DangerType::LumberingDevil), Danger(20));
    assert_eq!(movement_of(DangerType::LumberingDevil), CanMove { move_speed: 40 });
    assert_eq!(restlessness_rate(DangerType::LumberingDevil), 20);
    let pairs = archetype_pairs(DangerType::LumberingDevil);
    assert_eq!(pairs.len(), 2);
    assert_eq!(
        pairs[0].0,
        Scorer::Chase(Chase { trigger_distance: 300, max_distance: 500, target_distance: 0 })
    );
    match pairs[0].1 {
        Action::Chasing(c) => assert_eq!((c.max_distance, c.target_distance), (500, 0)),
        other => panic!("unexpected action {:?}", other),
    }
    assert_eq!(pairs[1].0, Scorer::Restless(Restless));
    match pairs[1].1 {
        Action::Meandering(m) => assert_eq!(m.recovery_per_second, 65),
        other => panic!("unexpected action {:?}", other),
    }
}

#[test]
fn ranged_archetypes_shoot_before_they_chase() {
    for kind in [DangerType::StealthySeraphim, DangerType::AngelicArcher] {
        let behaviours: Vec<Behavior> =
            archetype_pairs(kind).iter().map(|p| p.0.behavior()).collect();
        assert_eq!(behaviours, vec![Behavior::Shooting, Behavior::Chasing]);
    }
    let archer = archetype_pairs(DangerType::AngelicArcher);
    assert_eq!(
        archer[0].0,
        Scorer::Shoot(Shoot { max_range: 300, too_close: 100, preferred_distance: 150 })
    );
    assert_eq!(
        archer[1].0,
        Scorer::Chase(Chase { trigger_distance: 600, max_distance: 700, target_distance: 150 })
    );
    match archer[0].1 {
        Action::Shooting(s) => {
            assert_eq!(s.max_range, 300);
            assert_eq!(s.too_close, 100);
            assert_eq!(s.shot_speed, 6000);
            assert_eq!(s.last_shot, 0);
        }
        other => panic!("unexpected action {:?}", other),
    }
    match archer[1].1 {
        Action::Chasing(c) => assert_eq!((c.max_distance, c.target_distance), (600, 150)),
        other => panic!("unexpected action {:?}", other),
    }
    let seraph = archetype_pairs(DangerType::StealthySeraphim);
    assert_eq!(
        seraph[0].0,
        Scorer::Shoot(Shoot { max_range: 140, too_close: 70, preferred_distance: 90 })
    );
    assert_eq!(
        seraph[1].0,
        Scorer::Chase(Chase { trigger_distance: 400, max_distance: 500, target_distance: 90 })
    );
}

#[test]
fn the_detonator_only_shoots_and_the_guardian_only_chases() {
    let detonator = archetype_pairs(DangerType::DivineDetonator);
    assert_eq!(detonator.len(), 1);
    assert_eq!(
        detonator[0].0,
        Scorer::Shoot(Shoot { max_range: 250, too_close: 0, preferred_distance: 90 })
    );
    let guardian = archetype_pairs(DangerType::GuardianAngel);
    assert_eq!(guardian.len(), 1);
    assert_eq!(
        guardian[0].0,
        Scorer::Chase(Chase { trigger_distance: 75, max_distance: 100, target_distance: 0 })
    );
    match guardian[0].1 {
        Action::Chasing(c) => assert!(!c.drains),
        other => panic!("unexpected action {:?}", other),
    }
}

#[test]
fn every_archetype_builds_a_thinker_that_starts_by_resting() {
    for kind in KINDS {
        let pairs = archetype_pairs(kind);
        let t = thinker_for(kind);
        assert_eq!(t.picker.threshold, 800);
        assert_eq!(t.choices.len(), pairs.len());
        for i in 0..pairs.len() {
            assert_eq!(t.choices[i].scorer, pairs[i].0);
            assert_eq!(t.choices[i].action.behavior(), pairs[i].1.behavior());
            assert_eq!(t.choices[i].action.behavior(), t.choices[i].scorer.behavior());
        }
        assert_eq!(t.current, pairs.len());
        assert_eq!(t.current_behavior(), Behavior::Resting);
        assert_eq!(t.otherwise.behavior(), Behavior::Resting);
        assert_eq!(t.state, ActionState::Requested);
    }
}

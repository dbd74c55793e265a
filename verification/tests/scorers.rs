use danger_engine::restless::Restlessness;
use danger_engine::scorers::{
    chase_score, chase_scorer_system, restless_score, restless_scorer_system, shoot_score,
    shoot_scorer_system, Chase, Shoot, RESTLESSNESS_FULL, SCORE_ONE,
};
use danger_engine::space::Point;
use danger_engine::targets::Player;

fn at(x: i32, y: i32) -> Point {
    Point { x, y }
}

#[test]
fn chase_scores_one_inside_trigger_ring() {
    let chase = Chase { trigger_distance: 150, max_distance: 200, target_distance: 0 };
    assert_eq!(chase_score(&chase, 50), SCORE_ONE);
}

#[test]
fn chase_score_falls_linearly_beyond_the_trigger() {
    let chase = Chase { trigger_distance: 150, max_distance: 200, target_distance: 0 };
    assert_eq!(chase_score(&chase, 150), 1000);
    assert_eq!(chase_score(&chase, 175), 875);
    assert_eq!(chase_score(&chase, 250), 500);
    assert_eq!(chase_score(&chase, 350), 0);
    assert_eq!(chase_score(&chase, 400), 0);
}

#[test]
fn chase_score_inside_the_preferred_ring() {
    let chase = Chase { trigger_distance: 600, max_distance: 700, target_distance: 150 };
    assert_eq!(chase_score(&chase, 150), 1000);
    assert_eq!(chase_score(&chase, 100), 667);
    assert_eq!(chase_score(&chase, 75), 500);
    assert_eq!(chase_score(&chase, 0), 0);
}

#[test]
fn chase_score_at_distance_zero_with_target_zero() {
    let chase = Chase { trigger_distance: 150, max_distance: 200, target_distance: 0 };
    assert_eq!(chase_score(&chase, 0), 1000);
}

#[test]
fn chase_score_where_max_equals_target() {
    let chase = Chase { trigger_distance: 10, max_distance: 50, target_distance: 50 };
    assert_eq!(chase_score(&chase, 60), 0);
    assert_eq!(chase_score(&chase, 50), 1000);
    assert_eq!(chase_score(&chase, 5), 100);
}

#[test]
fn chase_score_where_max_is_below_target() {
    let chase = Chase { trigger_distance: 0, max_distance: 10, target_distance: 50 };
    assert_eq!(chase_score(&chase, 51), 0);
    let lenient = Chase { trigger_distance: 100, max_distance: 10, target_distance: 50 };
    assert_eq!(chase_score(&lenient, 51), 1000);
}

#[test]
fn chase_score_stays_in_range_for_huge_distances() {
    let chase = Chase { trigger_distance: 0, max_distance: u64::MAX, target_distance: 0 };
    assert_eq!(chase_score(&chase, u64::MAX), 0);
    assert_eq!(chase_score(&chase, u64::MAX / 2), 501);
    let tight = Chase { trigger_distance: 0, max_distance: 1, target_distance: 0 };
    assert_eq!(chase_score(&tight, u64::MAX), 0);
}

#[test]
fn shoot_score_commits_while_a_shot_is_under_way() {
    let shoot = Shoot { max_range: 300, too_close: 100, preferred_distance: 150 };
    assert_eq!(shoot_score(&shoot, true, 5000), 1000);
    assert_eq!(shoot_score(&shoot, true, 0), 1000);
}

#[test]
fn shoot_score_is_zero_out_of_range() {
    let shoot = Shoot { max_range: 300, too_close: 100, preferred_distance: 150 };
    assert_eq!(shoot_score(&shoot, false, 99), 0);
    assert_eq!(shoot_score(&shoot, false, 301), 0);
    assert_eq!(shoot_score(&shoot, false, 0), 0);
}

#[test]
fn shoot_score_peaks_at_the_preferred_distance() {
    let shoot = Shoot { max_range: 300, too_close: 100, preferred_distance: 150 };
    assert_eq!(shoot_score(&shoot, false, 150), 1000);
    assert_eq!(shoot_score(&shoot, false, 225), 500);
    assert_eq!(shoot_score(&shoot, false, 125), 500);
    assert_eq!(shoot_score(&shoot, false, 100), 0);
    assert_eq!(shoot_score(&shoot, false, 300), 0);
    assert_eq!(shoot_score(&shoot, false, 160), 934);
}

#[test]
fn shoot_score_where_the_distances_coincide() {
    let shoot = Shoot { max_range: 90, too_close: 90, preferred_distance: 90 };
    assert_eq!(shoot_score(&shoot, false, 90), 1000);
    assert_eq!(shoot_score(&shoot, false, 91), 0);
    let flat = Shoot { max_range: 200, too_close: 0, preferred_distance: 0 };
    assert_eq!(shoot_score(&flat, false, 0), 1000);
    assert_eq!(shoot_score(&flat, false, 100), 500);
}

#[test]
fn restless_score_is_restlessness_over_one_hundred() {
    assert_eq!(RESTLESSNESS_FULL, 100_000);
    assert_eq!(restless_score(150_000), 1000);
    assert_eq!(restless_score(100_000), 1000);
    assert_eq!(restless_score(80_000), 800);
    assert_eq!(restless_score(79_999), 799);
    assert_eq!(restless_score(50_000), 500);
    assert_eq!(restless_score(99), 0);
    assert_eq!(restless_score(0), 0);
}

#[test]
fn restless_score_of_negative_restlessness_is_zero() {
    assert_eq!(restless_score(-1), 0);
    assert_eq!(restless_score(-60_000), 0);
    assert_eq!(restless_score(i64::MIN), 0);
    assert_eq!(restless_score(i64::MAX), 1000);
}

#[test]
fn scores_never_leave_the_unit_range() {
    let distances = [0u64, 1, 9, 10, 11, 89, 90, 91, 149, 150, 151, 299, 300, 301, 5000, u64::MAX];
    let settings = [0u64, 1, 90, 150, 300, u64::MAX];
    for &a in &settings {
        for &b in &settings {
            for &c in &settings {
                let chase = Chase { trigger_distance: a, max_distance: b, target_distance: c };
                let shoot = Shoot { max_range: a, too_close: b, preferred_distance: c };
                for &d in &distances {
                    assert!(chase_score(&chase, d) <= SCORE_ONE);
                    assert!(shoot_score(&shoot, false, d) <= SCORE_ONE);
                    assert!(shoot_score(&shoot, true, d) <= SCORE_ONE);
                }
            }
        }
    }
}

#[test]
fn chase_system_scores_the_nearest_player() {
    let chase = Chase { trigger_distance: 150, max_distance: 200, target_distance: 0 };
    let players = vec![
        Player { id: 1, position: at(400, 0) },
        Player { id: 2, position: at(0, 175) },
        Player { id: 3, position: at(-300, 0) },
    ];
    assert_eq!(chase_scorer_system(&chase, at(0, 0), &players), 875);
}

#[test]
fn chase_system_scores_zero_without_players() {
    let chase = Chase { trigger_distance: 150, max_distance: 200, target_distance: 0 };
    assert_eq!(chase_scorer_system(&chase, at(0, 0), &Vec::new()), 0);
}

#[test]
fn shoot_system_scores_the_nearest_player() {
    let shoot = Shoot { max_range: 300, too_close: 100, preferred_distance: 150 };
    let players =
        vec![Player { id: 1, position: at(1000, 0) }, Player { id: 2, position: at(0, -225) }];
    assert_eq!(shoot_scorer_system(&shoot, at(0, 0), false, &players), 500);
    assert_eq!(shoot_scorer_system(&shoot, at(0, 0), true, &players), 1000);
}

#[test]
fn shoot_system_without_players() {
    let shoot = Shoot { max_range: 300, too_close: 100, preferred_distance: 150 };
    assert_eq!(shoot_scorer_system(&shoot, at(0, 0), false, &Vec::new()), 0);
    assert_eq!(shoot_scorer_system(&shoot, at(0, 0), true, &Vec::new()), 1000);
}

#[test]
fn restless_system_reads_the_current_level() {
    let r = Restlessness { per_second: 25, current_restlessness: 150_000 };
    assert_eq!(restless_scorer_system(&r), 1000);
    let calm = Restlessness { per_second: 25, current_restlessness: 12_345 };
    assert_eq!(restless_scorer_system(&calm), 123);
}

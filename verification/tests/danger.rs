use danger_engine::actions::ActionState;
use danger_engine::archetypes::{CanMove, Danger};
use danger_engine::danger::{
    far_from_all, promote, should_retire, Dangers, LiveDanger, SpawnTime, DESPAWN_DISTANCE,
    GRACE_PERIOD,
};
use danger_engine::movement::Moving;
use danger_engine::space::{Cell, Point};
use danger_engine::records::{DangerInGrid, DangerType};
use danger_engine::targets::Player;
use danger_engine::thinker::Behavior;

fn at(x: i32, y: i32) -> Point {
    Point { x, y }
}

fn player_at(x: i32, y: i32) -> Vec<Player> {
    vec![Player { id: 1, position: at(x, y) }]
}

fn live_ids(d: &Dangers) -> Vec<u64> {
    d.live.iter().map(|l| l.actor).collect()
}

fn assert_initial(d: &LiveDanger, actor: u64, position: Point, kind: DangerType, now: u64) {
    assert_eq!(d.actor, actor);
    assert_eq!(d.kind, kind);
    assert_eq!(d.spawn_time, SpawnTime(now));
    assert!(!d.ignore);
    assert_eq!(d.body.position, position);
    assert_eq!(d.body.restlessness.current_restlessness, 0);
    assert_eq!(d.body.moving, None);
    assert_eq!(d.body.shot, None);
    assert_eq!(d.thinker.current, d.thinker.choices.len());
    assert_eq!(d.thinker.current_behavior(), Behavior::Resting);
    assert_eq!(d.thinker.state, ActionState::Requested);
}

#[test]
fn the_standard_limits() {
    assert_eq!(DESPAWN_DISTANCE, 1500);
    assert_eq!(GRACE_PERIOD, 20_000);
}

#[test]
fn the_default_level_has_no_actors() {
    let d = Dangers::default();
    assert!(d.live.is_empty());
    assert_eq!(d.next_actor, 0);
}

#[test]
fn a_new_level_has_no_actors() {
    let d = Dangers::new();
    assert!(d.live.is_empty());
    assert_eq!(d.next_actor, 0);
    assert!(d.grid.query_adjacent(at(0, 0)).is_empty());
}

#[test]
fn new_actors_get_handles_in_turn_and_start_pending() {
    let mut d = Dangers::new();
    assert_eq!(d.setup_danger_in_grid(at(10, 10), DangerType::HolyHulk), Some(0));
    assert_eq!(d.setup_danger_in_grid(at(10, 10), DangerType::AngelicArcher), Some(1));
    assert_eq!(d.setup_danger_in_grid(at(-700, 10), DangerType::DivineDetonator), Some(2));
    assert_eq!(d.next_actor, 3);
    assert!(d.live.is_empty());
    assert_eq!(d.grid.cell_records(Cell { cx: 0, cy: 0 }).len(), 2);
    assert_eq!(d.grid.cell_records(Cell { cx: -2, cy: 0 }).len(), 1);
}

#[test]
fn no_handle_is_handed_out_once_they_have_run_out() {
    let mut d = Dangers::new();
    d.next_actor = u64::MAX - 1;
    assert_eq!(d.setup_danger_in_grid(at(10, 10), DangerType::HolyHulk), Some(u64::MAX - 1));
    assert_eq!(d.setup_danger_in_grid(at(10, 10), DangerType::HolyHulk), None);
    assert_eq!(d.next_actor, u64::MAX);
    assert_eq!(d.grid.cell_records(Cell { cx: 0, cy: 0 }).len(), 1);
}

#[test]
fn promotion_gives_the_initial_conditions_of_the_kind() {
    let rec = DangerInGrid { actor: 9, position: at(3, 4), kind: DangerType::HolyHulk };
    let d = promote(rec, 1234);
    assert_initial(&d, 9, at(3, 4), DangerType::HolyHulk, 1234);
    assert_eq!(d.danger, Danger(20));
    assert_eq!(d.can_move, CanMove { move_speed: 50 });
    assert_eq!(d.body.restlessness.per_second, 25);
    assert_eq!(d.thinker.choices.len(), 2);
}

#[test]
fn activation_promotes_the_pending_actors_near_a_player() {
    let mut d = Dangers::new();
    let near = d.setup_danger_in_grid(at(900, 900), DangerType::HolyHulk).unwrap();
    let far = d.setup_danger_in_grid(at(1000, 0), DangerType::AngelicArcher).unwrap();
    let promoted = d.spawn_danger(&player_at(0, 0), 500);
    assert_eq!(promoted.len(), 1);
    assert_eq!(promoted[0].actor, near);
    assert_eq!(live_ids(&d), vec![near]);
    assert_initial(&d.live[0], near, at(900, 900), DangerType::HolyHulk, 500);
    assert!(d.grid.cell_records(Cell { cx: 1, cy: 1 }).is_empty());
    let left = d.grid.cell_records(Cell { cx: 2, cy: 0 });
    assert_eq!(left.len(), 1);
    assert_eq!(left[0].actor, far);
}

#[test]
fn activation_without_players_does_nothing() {
    let mut d = Dangers::new();
    d.setup_danger_in_grid(at(0, 0), DangerType::HolyHulk).unwrap();
    let promoted = d.spawn_danger(&Vec::new(), 500);
    assert!(promoted.is_empty());
    assert!(d.live.is_empty());
    assert_eq!(d.grid.cell_records(Cell { cx: 0, cy: 0 }).len(), 1);
}

#[test]
fn several_actors_are_promoted_in_one_tick() {
    let mut d = Dangers::new();
    for i in 0..6 {
        d.setup_danger_in_grid(at(i * 300 - 700, 10), DangerType::StealthySeraphim).unwrap();
    }
    let players =
        vec![Player { id: 1, position: at(0, 0) }, Player { id: 2, position: at(100, 100) }];
    let promoted = d.spawn_danger(&players, 0);
    let mut ids: Vec<u64> = promoted.iter().map(|r| r.actor).collect();
    ids.sort();
    assert_eq!(ids, vec![1, 2, 3, 4, 5]);
    let mut live = live_ids(&d);
    live.sort();
    assert_eq!(live, vec![1, 2, 3, 4, 5]);
    assert_eq!(d.grid.cell_records(Cell { cx: -2, cy: 0 }).len(), 1);
    assert!(d.spawn_danger(&players, 16).is_empty());
    assert_eq!(d.live.len(), 5);
}

#[test]
fn actors_already_live_keep_their_place_and_state() {
    let mut d = Dangers::new();
    let first = d.setup_danger_in_grid(at(0, 0), DangerType::HolyHulk).unwrap();
    d.spawn_danger(&player_at(0, 0), 0);
    d.restlessness_system(1000);
    let second = d.setup_danger_in_grid(at(10, 0), DangerType::HolyHulk).unwrap();
    d.spawn_danger(&player_at(0, 0), 1000);
    assert_eq!(live_ids(&d), vec![first, second]);
    assert_eq!(d.live[0].body.restlessness.current_restlessness, 25_000);
    assert_eq!(d.live[0].spawn_time, SpawnTime(0));
    assert_eq!(d.live[1].body.restlessness.current_restlessness, 0);
    assert_eq!(d.live[1].spawn_time, SpawnTime(1000));
}

#[test]
fn far_means_farther_than_the_limit_from_every_player() {
    let players =
        vec![Player { id: 1, position: at(1501, 0) }, Player { id: 2, position: at(0, -3000) }];
    assert!(far_from_all(&players, at(0, 0), 1500));
    assert!(!far_from_all(&players, at(1, 0), 1500));
    assert!(far_from_all(&Vec::new(), at(0, 0), 1500));
    assert!(!far_from_all(&player_at(900, 1200), at(0, 0), 1500));
    assert!(far_from_all(&player_at(900, 1201), at(0, 0), 1500));
    assert!(!far_from_all(&player_at(i32::MAX, i32::MAX), at(i32::MIN, i32::MIN), u64::MAX));
}

#[test]
fn retirement_needs_age_distance_and_no_exemption() {
    let rec = DangerInGrid { actor: 1, position: at(0, 0), kind: DangerType::HolyHulk };
    let mut d = promote(rec, 1000);
    let away = player_at(2000, 0);
    assert!(should_retire(&d, &away, 21_000, 1500, 20_000));
    assert!(!should_retire(&d, &away, 20_999, 1500, 20_000));
    assert!(!should_retire(&d, &away, 0, 1500, 20_000));
    assert!(!should_retire(&d, &player_at(1500, 0), 21_000, 1500, 20_000));
    d.ignore = true;
    assert!(!should_retire(&d, &away, 21_000, 1500, 20_000));
}

#[test]
fn a_stale_far_actor_retires_and_is_pending_where_it_stood() {
    let mut d = Dangers::new();
    let actor = d.setup_danger_in_grid(at(0, 0), DangerType::HolyHulk).unwrap();
    d.spawn_danger(&player_at(0, 0), 0);
    assert!(d.move_live(actor, at(620, -40)));
    let away = player_at(620 + 1501, -40);
    assert!(d.despawn_danger(&away, 19_999).is_empty());
    assert_eq!(d.live.len(), 1);
    let retired = d.despawn_danger(&away, 20_000);
    assert_eq!(retired.len(), 1);
    assert_eq!(retired[0].actor, actor);
    assert_eq!(retired[0].position, at(620, -40));
    assert_eq!(retired[0].kind, DangerType::HolyHulk);
    assert!(d.live.is_empty());
    let found = d.grid.query_adjacent(at(620, -40));
    assert_eq!(found.len(), 1);
    assert_eq!(found[0].actor, actor);
    assert_eq!(found[0].position, at(620, -40));
    assert!(d.grid.cell_records(Cell { cx: 0, cy: 0 }).is_empty());
}

#[test]
fn an_actor_with_a_player_within_the_despawn_distance_stays_live() {
    let mut d = Dangers::new();
    d.setup_danger_in_grid(at(0, 0), DangerType::HolyHulk).unwrap();
    d.spawn_danger(&player_at(0, 0), 0);
    let players =
        vec![Player { id: 1, position: at(9000, 0) }, Player { id: 2, position: at(0, 1500) }];
    assert!(d.despawn_danger(&players, 60_000).is_empty());
    assert_eq!(d.live.len(), 1);
}

#[test]
fn without_players_every_stale_actor_retires() {
    let mut d = Dangers::new();
    d.setup_danger_in_grid(at(0, 0), DangerType::HolyHulk).unwrap();
    d.setup_danger_in_grid(at(5, 5), DangerType::AngelicArcher).unwrap();
    d.spawn_danger(&player_at(0, 0), 0);
    assert_eq!(d.live.len(), 2);
    let retired = d.despawn_danger(&Vec::new(), 20_000);
    assert_eq!(retired.len(), 2);
    assert!(d.live.is_empty());
    assert_eq!(d.grid.cell_records(Cell { cx: 0, cy: 0 }).len(), 2);
}

#[test]
fn retirement_keeps_the_survivors_in_order() {
    let mut d = Dangers::new();
    for i in 0..5 {
        d.setup_danger_in_grid(at(i * 10, 0), DangerType::HolyHulk).unwrap();
    }
    d.spawn_danger(&player_at(0, 0), 0);
    let order = live_ids(&d);
    assert_eq!(order.len(), 5);
    assert!(d.move_live(order[1], at(5000, 0)));
    assert!(d.move_live(order[3], at(-5000, 0)));
    assert!(d.set_temporary_ignore(order[4], true, 0));
    assert!(d.move_live(order[4], at(5000, 5000)));
    let retired = d.retire(&player_at(0, 0), 30_000, 1500, 20_000);
    let gone: Vec<u64> = retired.iter().map(|r| r.actor).collect();
    assert_eq!(gone, vec![order[1], order[3]]);
    assert_eq!(live_ids(&d), vec![order[0], order[2], order[4]]);
}

#[test]
fn retirement_with_other_limits() {
    let mut d = Dangers::new();
    d.setup_danger_in_grid(at(0, 0), DangerType::HolyHulk).unwrap();
    d.spawn_danger(&player_at(0, 0), 0);
    assert!(d.retire(&player_at(100, 0), 10, 100, 5).is_empty());
    assert!(d.retire(&player_at(101, 0), 4, 100, 5).is_empty());
    assert_eq!(d.retire(&player_at(101, 0), 5, 100, 5).len(), 1);
}

#[test]
fn an_exempt_actor_does_not_retire_and_gets_a_fresh_grace_period() {
    let mut d = Dangers::new();
    let actor = d.setup_danger_in_grid(at(0, 0), DangerType::StealthySeraphim).unwrap();
    d.spawn_danger(&player_at(0, 0), 0);
    let away = player_at(9000, 9000);
    assert!(d.set_temporary_ignore(actor, true, 30_000));
    assert!(d.live[0].ignore);
    d.mark_teleported_danger(30_016);
    assert_eq!(d.live[0].spawn_time, SpawnTime(30_016));
    assert!(d.despawn_danger(&away, 60_000).is_empty());
    assert_eq!(d.live.len(), 1);
    assert!(d.set_temporary_ignore(actor, false, 61_000));
    assert!(!d.live[0].ignore);
    assert_eq!(d.live[0].spawn_time, SpawnTime(61_000));
    assert!(d.despawn_danger(&away, 61_000).is_empty());
    assert!(d.despawn_danger(&away, 80_999).is_empty());
    assert_eq!(d.live.len(), 1);
    let retired = d.despawn_danger(&away, 81_000);
    assert_eq!(retired.len(), 1);
    assert_eq!(retired[0].actor, actor);
    assert!(d.live.is_empty());
}

#[test]
fn marking_leaves_actors_that_are_not_exempt_alone() {
    let mut d = Dangers::new();
    d.setup_danger_in_grid(at(0, 0), DangerType::HolyHulk).unwrap();
    d.setup_danger_in_grid(at(1, 1), DangerType::HolyHulk).unwrap();
    d.spawn_danger(&player_at(0, 0), 100);
    let exempt = d.live[1].actor;
    assert!(d.set_temporary_ignore(exempt, true, 200));
    d.mark_teleported_danger(900);
    assert_eq!(d.live[0].spawn_time, SpawnTime(100));
    assert_eq!(d.live[1].spawn_time, SpawnTime(900));
}

#[test]
fn exemption_of_an_actor_that_is_not_live_changes_nothing() {
    let mut d = Dangers::new();
    let actor = d.setup_danger_in_grid(at(0, 0), DangerType::HolyHulk).unwrap();
    assert!(!d.set_temporary_ignore(actor, true, 5));
    assert!(!d.move_live(actor, at(1, 1)));
    assert!(!d.set_temporary_ignore(77, true, 5));
    assert_eq!(d.find_live(actor), None);
    assert_eq!(d.grid.cell_records(Cell { cx: 0, cy: 0 })[0].position, at(0, 0));
}

#[test]
fn restlessness_accumulates_for_live_actors_that_are_not_exempt() {
    let mut d = Dangers::new();
    d.setup_danger_in_grid(at(0, 0), DangerType::HolyHulk).unwrap();
    d.setup_danger_in_grid(at(1, 1), DangerType::HolyHulk).unwrap();
    d.setup_danger_in_grid(at(9000, 1), DangerType::HolyHulk).unwrap();
    d.spawn_danger(&player_at(0, 0), 0);
    let exempt = d.live[1].actor;
    assert!(d.set_temporary_ignore(exempt, true, 0));
    d.restlessness_system(16);
    d.restlessness_system(16);
    assert_eq!(d.live[0].body.restlessness.current_restlessness, 800);
    assert_eq!(d.live[1].body.restlessness.current_restlessness, 0);
}

#[test]
fn promoted_retired_and_promoted_again_starts_afresh() {
    let mut d = Dangers::new();
    let actor = d.setup_danger_in_grid(at(0, 0), DangerType::HolyHulk).unwrap();
    let near = player_at(50, 0);
    d.spawn_danger(&near, 0);
    let choices = d.live[0].thinker.choices.len();
    for tick in 0..200u64 {
        d.restlessness_system(16);
        d.think_system(&near);
        let now = tick * 16;
        d.live[0].act(&near, now, 16, Moving { dx: 1000, dy: 0 });
    }
    assert_ne!(d.live[0].thinker.current_behavior(), Behavior::Resting);
    assert!(d.move_live(actor, at(730, 10)));
    let retired = d.despawn_danger(&player_at(9000, 0), 50_000);
    assert_eq!(retired.len(), 1);
    assert!(d.live.is_empty());
    let promoted = d.spawn_danger(&player_at(700, 0), 60_000);
    assert_eq!(promoted.len(), 1);
    assert_eq!(promoted[0].actor, actor);
    assert_eq!(d.live.len(), 1);
    assert_initial(&d.live[0], actor, at(730, 10), DangerType::HolyHulk, 60_000);
    assert_eq!(d.live[0].thinker.choices.len(), choices);
    assert_eq!(d.live[0].body.restlessness.per_second, 25);
    assert!(d.grid.query_adjacent(at(730, 10)).is_empty());
}

#[test]
fn an_actor_is_never_both_pending_and_live() {
    let mut d = Dangers::new();
    let mut handles = Vec::new();
    for i in 0..8 {
        handles.push(d.setup_danger_in_grid(at(i * 400, 0), DangerType::HolyHulk).unwrap());
    }
    let spots = [at(0, 0), at(3000, 0), at(1500, 0), at(-5000, 0), at(0, 0)];
    let mut now = 0;
    for spot in spots {
        now += 25_000;
        let players = vec![Player { id: 1, position: spot }];
        d.spawn_danger(&players, now);
        d.despawn_danger(&players, now);
        for &h in &handles {
            let mut pending = 0;
            for cx in -1..8 {
                pending += d
                    .grid
                    .cell_records(Cell { cx, cy: 0 })
                    .iter()
                    .filter(|r| r.actor == h)
                    .count();
            }
            let live = d.live.iter().filter(|l| l.actor == h).count();
            assert_eq!(pending + live, 1);
        }
    }
}

#[test]
fn clearing_removes_pending_and_live_actors_and_keeps_the_handle_counter() {
    let mut d = Dangers::new();
    d.setup_danger_in_grid(at(0, 0), DangerType::HolyHulk).unwrap();
    d.setup_danger_in_grid(at(9000, 0), DangerType::HolyHulk).unwrap();
    d.spawn_danger(&player_at(0, 0), 0);
    d.clear();
    assert!(d.live.is_empty());
    assert!(d.grid.cell_records(Cell { cx: 18, cy: 0 }).is_empty());
    assert_eq!(d.next_actor, 2);
    assert_eq!(d.setup_danger_in_grid(at(0, 0), DangerType::HolyHulk), Some(2));
}

#[test]
fn a_played_shot_is_taken_from_the_actor() {
    let mut d = Dangers::new();
    let actor = d.setup_danger_in_grid(at(0, 0), DangerType::AngelicArcher).unwrap();
    d.spawn_danger(&player_at(0, 150), 0);
    assert_eq!(d.consume_shot(actor), None);
    let players = player_at(0, 150);
    for t in 0..4u64 {
        d.think_system(&players);
        let now = 6000 + t * 16;
        d.live[0].act(&players, now, 16, Moving { dx: 0, dy: 0 });
    }
    let shot = d.consume_shot(actor).unwrap();
    assert_eq!((shot.dx, shot.dy), (0, 150));
    assert_eq!(d.live[0].body.shot, None);
    assert_eq!(d.consume_shot(actor), None);
    assert_eq!(d.consume_shot(99), None);
}

#[test]
fn a_destroyed_live_actor_is_forgotten() {
    let mut d = Dangers::new();
    let first = d.setup_danger_in_grid(at(0, 0), DangerType::HolyHulk).unwrap();
    let second = d.setup_danger_in_grid(at(10, 0), DangerType::HolyHulk).unwrap();
    let pending = d.setup_danger_in_grid(at(9000, 0), DangerType::HolyHulk).unwrap();
    d.spawn_danger(&player_at(0, 0), 0);
    assert!(d.forget_live(first));
    assert!(!d.forget_live(first));
    assert!(!d.forget_live(pending));
    assert_eq!(live_ids(&d), vec![second]);
    assert!(d.grid.query_adjacent(at(0, 0)).is_empty());
    assert_eq!(d.grid.cell_records(Cell { cx: 18, cy: 0 }).len(), 1);
}

#[test]
fn retiring_one_actor_by_place() {
    let mut d = Dangers::new();
    d.setup_danger_in_grid(at(0, 0), DangerType::HolyHulk).unwrap();
    d.setup_danger_in_grid(at(10, 0), DangerType::AngelicArcher).unwrap();
    d.spawn_danger(&player_at(0, 0), 0);
    let second = d.live[1].actor;
    let rec = d.retire_at(1);
    assert_eq!(rec.actor, second);
    assert_eq!(d.live.len(), 1);
    assert_eq!(d.find_live(second), None);
    assert_eq!(d.find_live(d.live[0].actor), Some(0));
    assert_eq!(d.grid.cell_records(Cell { cx: 0, cy: 0 }).len(), 1);
    assert_eq!(d.grid.cell_records(Cell { cx: 0, cy: 0 })[0].actor, second);
}

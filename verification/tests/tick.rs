use bevy_turborand::GlobalRng;
use danger_engine::actions::ActionState;
use danger_engine::danger::Dangers;
use danger_engine::space::{Cell, Point};
use danger_engine::records::DangerType;
use danger_engine::targets::Player;
use danger_engine::thinker::Behavior;
use danger_engine::tick::tick;

fn at(x: i32, y: i32) -> Point {
    Point { x, y }
}

fn player_at(x: i32, y: i32) -> Vec<Player> {
    vec![Player { id: 1, position: at(x, y) }]
}

#[test]
fn a_promoted_actor_thinks_and_acts_in_the_tick_of_its_promotion() {
    let mut d = Dangers::new();
    let mut rng = GlobalRng::with_seed(1);
    let actor = d.setup_danger_in_grid(at(0, 0), DangerType::HolyHulk).unwrap();
    let (promoted, demoted) = tick(&mut d, &player_at(50, 0), 1000, 16, &mut rng);
    assert_eq!(promoted.len(), 1);
    assert_eq!(promoted[0].actor, actor);
    assert!(demoted.is_empty());
    assert_eq!(d.live.len(), 1);
    assert_eq!(d.live[0].body.restlessness.current_restlessness, 400);
    assert_eq!(d.live[0].thinker.current_behavior(), Behavior::Resting);
    assert_eq!(d.live[0].thinker.state, ActionState::Success);
}

#[test]
fn a_hulk_goes_after_a_player_fifty_units_away() {
    let mut d = Dangers::new();
    let mut rng = GlobalRng::with_seed(1);
    d.setup_danger_in_grid(at(0, 0), DangerType::HolyHulk).unwrap();
    let players = player_at(50, 0);
    for t in 0..4u64 {
        tick(&mut d, &players, t * 16, 16, &mut rng);
    }
    assert_eq!(d.live[0].thinker.current_behavior(), Behavior::Chasing);
    assert_eq!(d.live[0].thinker.state, ActionState::Executing);
    let m = d.live[0].body.moving.unwrap();
    assert_eq!((m.dx, m.dy), (1000, 0));
}

#[test]
fn a_restless_hulk_wanders_off_in_a_drawn_direction() {
    let mut d = Dangers::new();
    let mut rng = GlobalRng::with_seed(5);
    d.setup_danger_in_grid(at(0, 0), DangerType::HolyHulk).unwrap();
    let players = player_at(400, 400);
    let mut now = 0;
    let mut wandered = false;
    for _ in 0..400 {
        now += 16;
        tick(&mut d, &players, now, 16, &mut rng);
        let live = &d.live[0];
        if live.thinker.current_behavior() == Behavior::Meandering
            && live.thinker.state == ActionState::Executing
        {
            let m = live.body.moving.unwrap();
            assert!((-1000..=1000).contains(&m.dx));
            assert!((-1000..=1000).contains(&m.dy));
            wandered = true;
            break;
        }
        assert!(live.body.moving.is_none());
    }
    assert!(wandered);
    assert!(now >= 3200);
    assert!(d.live[0].body.restlessness.current_restlessness >= 80_000);
}

#[test]
fn an_archer_shoots_a_player_at_its_preferred_distance() {
    let mut d = Dangers::new();
    let mut rng = GlobalRng::with_seed(1);
    d.setup_danger_in_grid(at(0, 0), DangerType::AngelicArcher).unwrap();
    let players = player_at(0, 150);
    let mut now = 6000;
    for _ in 0..4 {
        tick(&mut d, &players, now, 16, &mut rng);
        now += 16;
    }
    let live = &d.live[0];
    assert_eq!(live.thinker.current_behavior(), Behavior::Shooting);
    let shot = live.body.shot.unwrap();
    assert_eq!((shot.dx, shot.dy), (0, 150));
    assert_eq!(shot.target_point, at(0, 150));
}

#[test]
fn retirement_comes_last_in_a_tick() {
    let mut d = Dangers::new();
    let mut rng = GlobalRng::with_seed(1);
    let actor = d.setup_danger_in_grid(at(0, 0), DangerType::HolyHulk).unwrap();
    tick(&mut d, &player_at(0, 0), 0, 16, &mut rng);
    assert_eq!(d.live.len(), 1);
    let away = player_at(5000, 5000);
    let (promoted, demoted) = tick(&mut d, &away, 19_999, 16, &mut rng);
    assert!(promoted.is_empty() && demoted.is_empty());
    let (promoted, demoted) = tick(&mut d, &away, 20_000, 16, &mut rng);
    assert!(promoted.is_empty());
    assert_eq!(demoted.len(), 1);
    assert_eq!(demoted[0].actor, actor);
    assert!(d.live.is_empty());
    assert_eq!(d.grid.cell_records(Cell { cx: 0, cy: 0 }).len(), 1);
    let (promoted, _) = tick(&mut d, &player_at(10, 10), 20_016, 16, &mut rng);
    assert_eq!(promoted.len(), 1);
    assert_eq!(d.live[0].body.restlessness.current_restlessness, 400);
    assert_eq!(d.live[0].spawn_time.0, 20_016);
}

#[test]
fn a_tick_without_players_and_actors_does_nothing() {
    let mut d = Dangers::new();
    let mut rng = GlobalRng::with_seed(1);
    let (promoted, demoted) = tick(&mut d, &Vec::new(), 0, 16, &mut rng);
    assert!(promoted.is_empty());
    assert!(demoted.is_empty());
    assert!(d.live.is_empty());
}

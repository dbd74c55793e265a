use danger_engine::restless::Restlessness;

#[test]
fn restlessness_starts_at_zero() {
    let r = Restlessness::new(25);
    assert_eq!(r.per_second, 25);
    assert_eq!(r.current_restlessness, 0);
}

#[test]
fn restlessness_rises_by_rate_times_step() {
    let mut r = Restlessness::new(25);
    r.accumulate(16);
    assert_eq!(r.current_restlessness, 400);
    r.accumulate(1000);
    assert_eq!(r.current_restlessness, 25_400);
    assert_eq!(r.per_second, 25);
}

#[test]
fn restlessness_has_no_cap_at_one_hundred_units() {
    let mut r = Restlessness { per_second: 25, current_restlessness: 99_000 };
    r.accumulate(1000);
    assert_eq!(r.current_restlessness, 124_000);
}

#[test]
fn meander_drain_cancels_the_gain_and_spends_on_top() {
    let mut r = Restlessness { per_second: 25, current_restlessness: 100_000 };
    r.drain(35, 1000);
    assert_eq!(r.current_restlessness, 40_000);
}

#[test]
fn restlessness_may_go_negative() {
    let mut r = Restlessness::new(25);
    r.drain(35, 1000);
    assert_eq!(r.current_restlessness, -60_000);
    r.drain(35, 1000);
    assert_eq!(r.current_restlessness, -120_000);
}

#[test]
fn a_step_of_zero_changes_nothing() {
    let mut r = Restlessness { per_second: 25, current_restlessness: 7 };
    r.accumulate(0);
    assert_eq!(r.current_restlessness, 7);
    r.drain(35, 0);
    assert_eq!(r.current_restlessness, 7);
}

#[test]
fn restlessness_stays_at_the_ends_of_its_range() {
    let mut high = Restlessness { per_second: i64::MAX, current_restlessness: i64::MAX - 5 };
    high.accumulate(u32::MAX);
    assert_eq!(high.current_restlessness, i64::MAX);
    let mut low = Restlessness { per_second: i64::MAX, current_restlessness: i64::MIN + 5 };
    low.drain(i64::MAX, u32::MAX);
    assert_eq!(low.current_restlessness, i64::MIN);
    let mut falling = Restlessness { per_second: -3, current_restlessness: 10 };
    falling.accumulate(5);
    assert_eq!(falling.current_restlessness, -5);
}

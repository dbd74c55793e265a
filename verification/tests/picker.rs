use danger_engine::picker::FirstToScore;

#[test]
fn the_first_score_at_the_threshold_wins() {
    let picker = FirstToScore::new(800);
    assert_eq!(picker.threshold, 800);
    assert_eq!(picker.pick(&vec![100, 800, 900]), Some(1));
    assert_eq!(picker.pick(&vec![1000, 1000]), Some(0));
    assert_eq!(picker.pick(&vec![0, 0, 801]), Some(2));
}

#[test]
fn a_score_just_below_the_threshold_loses() {
    let picker = FirstToScore::new(800);
    assert_eq!(picker.pick(&vec![799, 0]), None);
}

#[test]
fn nothing_is_picked_among_no_scores() {
    let picker = FirstToScore::new(800);
    assert_eq!(picker.pick(&Vec::new()), None);
}

#[test]
fn priority_beats_height() {
    let picker = FirstToScore::new(500);
    assert_eq!(picker.pick(&vec![500, 1000]), Some(0));
}

#[test]
fn a_threshold_of_zero_picks_the_first_choice() {
    let picker = FirstToScore::new(0);
    assert_eq!(picker.pick(&vec![0, 1000]), Some(0));
}

#[test]
fn picking_twice_gives_the_same_choice() {
    let picker = FirstToScore::new(800);
    let scores = vec![12, 950, 870, 3];
    let first = picker.pick(&scores);
    for _ in 0..100 {
        assert_eq!(picker.pick(&scores), first);
    }
    assert_eq!(first, Some(1));
}

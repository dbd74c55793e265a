use danger_engine::schedule::{InGameActions, InGamePreUpdate, InGameScorers, InGameUpdate};

#[test]
fn stage_labels_compare_equal_to_themselves() {
    assert_eq!(InGamePreUpdate, InGamePreUpdate);
    assert_eq!(InGameUpdate, InGameUpdate.clone());
    assert_eq!(InGameScorers, InGameScorers);
    assert_eq!(InGameActions, InGameActions);
    assert_eq!(format!("{:?}", InGamePreUpdate), "InGamePreUpdate");
    assert_eq!(format!("{:?}", InGameActions), "InGameActions");
}

use substitute_soccer::field::{allow_movement, on_pitch};

#[test]
fn allow_movement_centre_is_open() {
    assert!(allow_movement(500_000, 700_000));
}

#[test]
fn allow_movement_goal_back_is_closed() {
    assert!(!allow_movement(500_000, 0));
    assert!(!allow_movement(500_000, 1_400_000));
    assert!(!allow_movement(400_000, 50_000));
}

#[test]
fn allow_movement_beside_goal() {
    assert!(allow_movement(200_000, 1));
    assert!(allow_movement(200_000, 50_000));
    assert!(allow_movement(100_000, 0));
    assert!(allow_movement(200_000, 1_400_000));
    assert!(!allow_movement(200_000, -1));
    assert!(!allow_movement(200_000, 1_400_001));
}

#[test]
fn allow_movement_off_level() {
    assert!(!allow_movement(-1, 700_000));
    assert!(!allow_movement(1_000_001, 700_000));
    assert!(allow_movement(0, 700_000));
}

#[test]
fn on_pitch_areas() {
    assert!(on_pitch(500_000, 700_000));
    assert!(on_pitch(58_000, 78_000));
    assert!(!on_pitch(942_000, 700_000));
    assert!(on_pitch(500_000, 60_000));
    assert!(!on_pitch(200_000, 60_000));
    assert!(!on_pitch(500_000, 1_342_000));
}

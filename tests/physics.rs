use substitute_soccer::physics::{avg, ball_physics, drag, steps};

#[test]
fn free_flight_bounce() {
    let bounds = (0, 504_000);
    let (p1, v1) = ball_physics(500_000, 5_000, bounds);
    assert_eq!((p1, v1), (500_000, -4_900));
    let (p2, v2) = ball_physics(p1, v1, bounds);
    assert_eq!((p2, v2), (495_100, -4_802));
}

#[test]
fn free_flight_inside_bounds() {
    assert_eq!(ball_physics(100_000, -3_000, (58_000, 942_000)), (97_000, -2_940));
}

#[test]
fn drag_rounds_toward_zero() {
    assert_eq!(drag(5_000), 4_900);
    assert_eq!(drag(-4_900), -4_802);
    assert_eq!(drag(1), 0);
    assert_eq!(drag(-1), 0);
    assert_eq!(drag(0), 0);
}

#[test]
fn avg_snaps_when_close() {
    assert_eq!(avg(0, 999), 999);
    assert_eq!(avg(0, -999), -999);
    assert_eq!(avg(0, 5_000), 2_500);
    assert_eq!(avg(-3, -5_001), -2_502);
}

#[test]
fn steps_of_no_distance_is_zero() {
    assert_eq!(steps(0), 0);
}

#[test]
fn steps_of_one_kick_tick() {
    assert_eq!(steps(11_500), 1);
    assert_eq!(steps(11_501), 2);
}

#[test]
fn steps_long_kick_is_fixed() {
    assert_eq!(steps(574_000), 190);
    assert_eq!(steps(1_000_000), 190);
}

#[test]
fn steps_never_falls_below_long_kick_distance() {
    let mut last = 0;
    let mut d: i64 = 0;
    while d < 574_000 {
        let s = steps(d);
        assert!(s >= last, "steps fell at {}", d);
        last = s;
        d += 997;
    }
    assert!(steps(573_999) >= steps(500_000));
}

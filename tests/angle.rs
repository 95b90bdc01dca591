use substitute_soccer::angle::Angle;
use substitute_soccer::geometry::{isqrt, Vec2};

#[test]
fn from_vec_octants() {
    let cases = [
        ((0, -1), 0),
        ((1, -1), 1),
        ((1, 0), 2),
        ((1, 1), 3),
        ((0, 1), 4),
        ((-1, 1), 5),
        ((-1, 0), 6),
        ((-1, -1), 7),
        ((0, 0), 4),
        ((100, -1_000), 0),
        ((1_000, -2_000), 1),
        ((-2_000, 900), 5),
        ((-2_000, 500), 6),
    ];
    for ((x, y), want) in cases {
        assert_eq!(Angle::from_vec(Vec2::new(x, y)), Angle(want), "({}, {})", x, y);
    }
}

#[test]
fn to_vec_units() {
    assert_eq!(Angle::to_vec(Angle(0)), Vec2::new(0, -1_000));
    assert_eq!(Angle::to_vec(Angle(1)), Vec2::new(707, -707));
    assert_eq!(Angle::to_vec(Angle(2)), Vec2::new(1_000, 0));
    assert_eq!(Angle::to_vec(Angle(4)), Vec2::new(0, 1_000));
    assert_eq!(Angle::to_vec(Angle(6)), Vec2::new(-1_000, 0));
    assert_eq!(Angle::to_vec(Angle(7)), Vec2::new(-707, -707));
}

#[test]
fn turn_one_octant_at_most() {
    assert_eq!(Angle(0).turn_toward(Angle(4)), Angle(1));
    assert_eq!(Angle(0).turn_toward(Angle(5)), Angle(7));
    assert_eq!(Angle(3).turn_toward(Angle(3)), Angle(3));
    assert_eq!(Angle(7).turn_toward(Angle(1)), Angle(0));
    assert_eq!(Angle(1).turn_toward(Angle(0)), Angle(0));
}

#[test]
fn integer_square_roots() {
    assert_eq!(isqrt(0), 0);
    assert_eq!(isqrt(15), 3);
    assert_eq!(isqrt(16), 4);
    assert_eq!(isqrt(1_000_000_000_000), 1_000_000);
}

#[test]
fn vector_lengths() {
    assert_eq!(Vec2::new(3_000, -4_000).length(), 5_000);
    assert_eq!(Vec2::new(30_000, 40_000).with_max_length(5_000), Vec2::new(3_000, 4_000));
    assert_eq!(Vec2::new(3, 4).with_max_length(5_000), Vec2::new(3, 4));
    assert_eq!(Vec2::new(0, 1_000).scale_to(11_500), Vec2::new(0, 11_500));
    assert_eq!(Vec2::new(0, 0).scale_to(11_500), Vec2::new(0, 0));
}

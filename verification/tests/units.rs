use space_combat::units::{
    add_clamped, clamped_difference, is_at_least_apart, isqrt, scale, Direction, Point,
    ANGLE_LIMIT, COORD_LIMIT, UNIT,
};

#[test]
fn add_clamped_adds_within_the_limit() {
    assert_eq!(add_clamped(3, 4, 10), 7);
    assert_eq!(add_clamped(-3, -4, 10), -7);
}

#[test]
fn add_clamped_stops_at_the_limit() {
    assert_eq!(add_clamped(8, 4, 10), 10);
    assert_eq!(add_clamped(-8, -4, 10), -10);
    assert_eq!(add_clamped(i64::MAX, i64::MAX, ANGLE_LIMIT), ANGLE_LIMIT);
    assert_eq!(add_clamped(i64::MIN, i64::MIN, ANGLE_LIMIT), -ANGLE_LIMIT);
}

#[test]
fn clamped_difference_subtracts_within_the_limit() {
    assert_eq!(clamped_difference(10, 4, 500_000), 6);
    assert_eq!(clamped_difference(4, 10, 500_000), -6);
    assert_eq!(clamped_difference(3_000_000, 0, 500_000), 500_000);
    assert_eq!(clamped_difference(-3_000_000, 0, 500_000), -500_000);
    assert_eq!(clamped_difference(i64::MAX, i64::MIN, 500_000), 500_000);
    assert_eq!(clamped_difference(i64::MIN, i64::MAX, 500_000), -500_000);
}

#[test]
fn scale_multiplies_by_a_fraction_and_rounds_down() {
    assert_eq!(scale(50_000, 500_000), 25_000);
    assert_eq!(scale(50_000, UNIT), 50_000);
    assert_eq!(scale(50_000, 0), 0);
    assert_eq!(scale(3, 500_000), 1);
    assert_eq!(scale(-3, 500_000), -2);
    assert_eq!(scale(3, -500_000), -2);
    assert_eq!(scale(-50_000, 300_000), -15_000);
    assert_eq!(scale(COORD_LIMIT, COORD_LIMIT), 1_000_000_000_000);
}

#[test]
fn isqrt_rounds_down() {
    assert_eq!(isqrt(0), 0);
    assert_eq!(isqrt(1), 1);
    assert_eq!(isqrt(3), 1);
    assert_eq!(isqrt(4), 2);
    assert_eq!(isqrt(99), 9);
    assert_eq!(isqrt(100), 10);
    assert_eq!(isqrt(1_000_000_000_000), 1_000_000);
    assert_eq!(isqrt(999_999_999_999), 999_999);
    assert_eq!(isqrt(u64::MAX), 4_294_967_295);
}

#[test]
fn isqrt_is_the_floor_for_many_inputs() {
    let mut n: u64 = 0;
    while n < 5_000 {
        let r = isqrt(n);
        assert!(r * r <= n);
        assert!((r + 1) * (r + 1) > n);
        n += 1;
    }
}

#[test]
fn point_new_keeps_coordinates_within_the_limit() {
    assert_eq!(Point::new(5, -7), Point { x: 5, y: -7 });
    assert_eq!(
        Point::new(i64::MAX, i64::MIN),
        Point { x: COORD_LIMIT, y: -COORD_LIMIT }
    );
    assert_eq!(Point::origin(), Point { x: 0, y: 0 });
}

#[test]
fn shift_moves_and_stops_at_the_limit() {
    let p = Point { x: 10, y: 20 };
    assert_eq!(p.shift(5, -30), Point { x: 15, y: -10 });
    let edge = Point { x: COORD_LIMIT - 1, y: -COORD_LIMIT + 1 };
    assert_eq!(edge.shift(10, -10), Point { x: COORD_LIMIT, y: -COORD_LIMIT });
}

#[test]
fn advance_moves_along_the_facing() {
    let p = Point { x: 0, y: 0 };
    let north = Direction { sin: 0, cos: UNIT };
    let east = Direction { sin: UNIT, cos: 0 };
    let diagonal = Direction { sin: 707_107, cos: 707_107 };
    assert_eq!(p.advance(50_000, north), Point { x: 0, y: 50_000 });
    assert_eq!(p.advance(50_000, east), Point { x: 50_000, y: 0 });
    assert_eq!(p.advance(-15_000, north), Point { x: 0, y: -15_000 });
    assert_eq!(p.advance(100_000, diagonal), Point { x: 70_710, y: 70_710 });
    assert_eq!(p.advance(0, east), p);
}

#[test]
fn direction_validity_is_decided() {
    assert!(Direction { sin: UNIT, cos: -UNIT }.is_valid());
    assert!(!Direction { sin: UNIT + 1, cos: 0 }.is_valid());
    assert!(!Direction { sin: 0, cos: -UNIT - 1 }.is_valid());
}

#[test]
fn distance_squared_and_distance() {
    let a = Point { x: 0, y: 0 };
    let b = Point { x: 3_000_000, y: 4_000_000 };
    assert_eq!(a.distance_squared(&b), 25_000_000_000_000);
    assert_eq!(b.distance_squared(&a), 25_000_000_000_000);
    assert_eq!(a.distance(&b), 5_000_000);
    assert_eq!(a.distance(&a), 0);
    let c = Point { x: 1, y: 1 };
    assert_eq!(a.distance(&c), 1);
    let far = Point { x: COORD_LIMIT, y: COORD_LIMIT };
    let opposite = Point { x: -COORD_LIMIT, y: -COORD_LIMIT };
    assert_eq!(far.distance_squared(&opposite), 8_000_000_000_000_000_000);
    assert_eq!(far.distance(&opposite), 2_828_427_124);
}

#[test]
fn apart_is_decided_on_the_squares() {
    let origin = Point { x: 0, y: 0 };
    let on_circle = Point { x: 6_000_000, y: 8_000_000 };
    assert!(is_at_least_apart(&on_circle, &origin, 10 * UNIT));
    let inside = Point { x: 6_000_000, y: 7_999_999 };
    assert!(!is_at_least_apart(&inside, &origin, 10 * UNIT));
    assert!(is_at_least_apart(&origin, &origin, 0));
}

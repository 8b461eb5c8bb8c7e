use game::math::{direction, Vec2, SCALE, SCALE_SQUARED};

/// Whether `q` is component `d` of a vector of squared length `n`, brought
/// to length one and rounded towards zero.
fn is_rounded_unit_component(q: i32, d: i64, n: i128) -> bool {
    let q = q as i128;
    let d = d as i128;
    let scale = SCALE as i128;
    let a = q.abs();
    let same_way = (q >= 0 && d >= 0) || (q <= 0 && d <= 0);
    same_way && a * a * n <= d * d * scale * scale && d * d * scale * scale < (a + 1) * (a + 1) * n
}

#[test]
fn scale_is_sixteen_bits() {
    assert_eq!(SCALE, 1 << 16);
    assert_eq!(SCALE_SQUARED, (SCALE as u64) * (SCALE as u64));
}

#[test]
fn constructors() {
    assert_eq!(Vec2::new(3, -4), Vec2 { x: 3, y: -4 });
    assert_eq!(Vec2::zero(), Vec2 { x: 0, y: 0 });
    assert_eq!(Vec2::from_units(1, -2), Vec2 { x: 65536, y: -131072 });
    assert_eq!(Vec2::from_units(i16::MAX, i16::MIN), Vec2 { x: 2147418112, y: i32::MIN });
}

#[test]
fn normalize_or_zero_of_zero_is_zero() {
    assert_eq!(Vec2::zero().normalize_or_zero(), Vec2::zero());
    assert_eq!(Vec2::from_units(0, 0).normalize_or_zero(), Vec2 { x: 0, y: 0 });
    let here = Vec2::from_units(3, 4);
    assert_eq!(direction(&here, &here), Vec2::zero());
}

#[test]
fn normalize_along_the_axes_is_exact() {
    assert_eq!(Vec2::from_units(10, 0).normalize_or_zero(), Vec2::from_units(1, 0));
    assert_eq!(Vec2::from_units(-10, 0).normalize_or_zero(), Vec2::from_units(-1, 0));
    assert_eq!(Vec2::from_units(0, 7).normalize_or_zero(), Vec2::from_units(0, 1));
    assert_eq!(Vec2::from_units(0, -7).normalize_or_zero(), Vec2::from_units(0, -1));
    assert_eq!(Vec2::new(1, 0).normalize_or_zero(), Vec2::from_units(1, 0));
    assert_eq!(Vec2::new(0, i32::MIN).normalize_or_zero(), Vec2::from_units(0, -1));
    assert_eq!(Vec2::new(i32::MAX, 0).normalize_or_zero(), Vec2::from_units(1, 0));
}

#[test]
fn normalize_rounds_towards_zero() {
    // 0.6 and 0.8 of 65536 are 39321.6 and 52428.8.
    assert_eq!(Vec2::from_units(30, 40).normalize_or_zero(), Vec2::new(39321, 52428));
    assert_eq!(Vec2::from_units(-30, 40).normalize_or_zero(), Vec2::new(-39321, 52428));
    assert_eq!(Vec2::new(-3, -4).normalize_or_zero(), Vec2::new(-39321, -52428));
    // 65536 / sqrt(2) is 46340.95.
    assert_eq!(Vec2::new(1, 1).normalize_or_zero(), Vec2::new(46340, 46340));
    assert_eq!(Vec2::new(i32::MIN, i32::MAX).normalize_or_zero(), Vec2::new(-46340, 46340));
    // Almost along an axis: the long component stays just short of one.
    assert_eq!(Vec2::new(1, i32::MAX).normalize_or_zero(), Vec2::new(0, 65535));
}

#[test]
fn direction_points_from_position_to_destination() {
    let from = Vec2::from_units(1, 1);
    let to = Vec2::from_units(0, 0);
    assert_eq!(direction(&from, &to), Vec2::new(-46340, -46340));
    assert_eq!(direction(&to, &from), Vec2::new(46340, 46340));
    assert_eq!(direction(&Vec2::from_units(1, 1), &Vec2::from_units(150, 125)), Vec2::new(50373, 41921));
    assert_eq!(
        direction(&Vec2::from_units(100, 100), &Vec2::from_units(130, 140)),
        Vec2::from_units(30, 40).normalize_or_zero()
    );
}

#[test]
fn direction_across_the_whole_plane() {
    let low = Vec2::new(i32::MIN, i32::MIN);
    let high = Vec2::new(i32::MAX, i32::MAX);
    assert_eq!(direction(&low, &high), Vec2::new(46340, 46340));
    assert_eq!(direction(&high, &low), Vec2::new(-46340, -46340));
    assert_eq!(direction(&Vec2::new(i32::MIN, 0), &Vec2::new(i32::MAX, 1)), Vec2::new(65535, 0));
    assert_eq!(direction(&Vec2::new(i32::MIN, 0), &Vec2::new(i32::MAX, 0)), Vec2::new(65536, 0));
}

#[test]
fn normalize_is_the_rounded_unit_vector() {
    let samples: [(i32, i32); 12] = [
        (1, 2),
        (-5, 3),
        (65536, 1),
        (1, -65536),
        (123456, -654321),
        (-98765, -43210),
        (i32::MAX, i32::MAX - 1),
        (i32::MIN, 17),
        (7, i32::MIN),
        (2, 3),
        (1000, 1),
        (-1, 1000000),
    ];
    for (x, y) in samples {
        let v = Vec2::new(x, y);
        let unit = v.normalize_or_zero();
        let n = (x as i128) * (x as i128) + (y as i128) * (y as i128);
        assert!(is_rounded_unit_component(unit.x, x as i64, n));
        assert!(is_rounded_unit_component(unit.y, y as i64, n));
        assert!(unit.is_direction());
        // Within two sub-units of the unit vector in floating point.
        let length = (n as f64).sqrt();
        assert!((unit.x as f64 - x as f64 / length * SCALE as f64).abs() < 2.0);
        assert!((unit.y as f64 - y as f64 / length * SCALE as f64).abs() < 2.0);
    }
}

#[test]
fn is_direction_accepts_zero_and_unit_vectors_only() {
    assert!(Vec2::zero().is_direction());
    assert!(Vec2::from_units(1, 0).is_direction());
    assert!(Vec2::from_units(0, -1).is_direction());
    assert!(Vec2::new(46340, 46340).is_direction());
    assert!(Vec2::new(-39321, 52428).is_direction());
    assert!(Vec2::new(0, 65535).is_direction());
    assert!(Vec2::new(65535, 0).is_direction());

    assert!(!Vec2::new(65537, 0).is_direction());
    assert!(!Vec2::new(65536, 1).is_direction());
    assert!(!Vec2::new(46341, 46341).is_direction());
    assert!(!Vec2::new(65534, 0).is_direction());
    assert!(!Vec2::new(1, 0).is_direction());
    assert!(!Vec2::new(46339, 46339).is_direction());
    assert!(!Vec2::from_units(1, 1).is_direction());
    assert!(!Vec2::new(i32::MIN, i32::MIN).is_direction());
    assert!(!Vec2::new(i32::MAX, i32::MAX).is_direction());
}

#[test]
fn distance_squared_is_exact() {
    let a = Vec2::from_units(1, 1);
    let b = Vec2::from_units(0, 0);
    assert_eq!(a.distance_squared(&b), 2 * SCALE_SQUARED as u128);
    assert_eq!(b.distance_squared(&a), 2 * SCALE_SQUARED as u128);
    assert_eq!(a.distance_squared(&a), 0);
    assert_eq!(Vec2::new(3, -4).distance_squared(&Vec2::new(0, 0)), 25);
    assert_eq!(Vec2::new(-1, 5).distance_squared(&Vec2::new(2, 1)), 25);
    let low = Vec2::new(i32::MIN, i32::MIN);
    let high = Vec2::new(i32::MAX, i32::MAX);
    let side: u128 = (1 << 32) - 1;
    assert_eq!(low.distance_squared(&high), 2 * side * side);
}

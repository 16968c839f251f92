use boids::vec2::{Vec2, SCALE};

#[test]
fn scale_is_one_thousand() {
    assert_eq!(SCALE, 1000);
}

#[test]
fn add_and_sub() {
    let a = Vec2::new(3000, -2000);
    let b = Vec2::new(1000, 7000);
    assert_eq!(a.add(b), Vec2::new(4000, 5000));
    assert_eq!(a.sub(b), Vec2::new(2000, -9000));
}

#[test]
fn length_of_three_four_five_triangle() {
    assert_eq!(Vec2::new(3000, 4000).length(), 5000);
    assert_eq!(Vec2::new(-3000, 4000).length(), 5000);
    assert_eq!(Vec2::new(0, 0).length(), 0);
    assert_eq!(Vec2::new(0, -7).length(), 7);
}

#[test]
fn length_rounds_down() {
    // |(1000, 1000)| = 1414.21...; the fixed-point length truncates
    assert_eq!(Vec2::new(1000, 1000).length(), 1414);
}

#[test]
fn normalize_scales_to_one_unit() {
    assert_eq!(Vec2::new(3000, 4000).normalize_or_zero(), Vec2::new(600, 800));
    assert_eq!(Vec2::new(3000, 4000).normalize_or_zero().length(), 1000);
    assert_eq!(Vec2::new(-500, 0).normalize_or_zero(), Vec2::new(-1000, 0));
}

#[test]
fn normalize_of_zero_is_zero() {
    assert_eq!(Vec2::new(0, 0).normalize_or_zero(), Vec2::new(0, 0));
}

#[test]
fn mul_fp_scales_by_fixed_point_weight() {
    // (1000, 0) * 15.0 = (15000, 0)
    assert_eq!(Vec2::new(1000, 0).mul_fp(15000), Vec2::new(15000, 0));
    assert_eq!(Vec2::new(600, 800).mul_fp(500), Vec2::new(300, 400));
}

#[test]
fn clamp_leaves_short_vectors_alone() {
    let v = Vec2::new(3000, 4000);
    assert_eq!(v.clamp_length_max(5000), v);
    assert_eq!(v.clamp_length_max(5001), v);
}

#[test]
fn clamp_rescales_long_vectors() {
    let v = Vec2::new(3000, 4000);
    let c = v.clamp_length_max(1000);
    assert_eq!(c, Vec2::new(600, 800));
    assert!(c.length() <= 1000);
}

#[test]
fn clamp_to_zero_gives_zero() {
    assert_eq!(Vec2::new(123, -456).clamp_length_max(0), Vec2::new(0, 0));
}

#[test]
fn normalize_keeps_sub_unit_vectors_at_one_unit() {
    // a thousandth of a unit on each axis: the prescaled square root keeps
    // the result on the unit circle instead of stretching it to (1, 1) units
    let n = Vec2::new(1, 1).normalize_or_zero();
    assert_eq!(n, Vec2::new(707, 707));
    assert_eq!(n.length(), 999);
}

#[test]
fn normalize_of_a_long_diagonal_stays_within_one_unit() {
    let n = Vec2::new(1_000_000, 1_000_000).normalize_or_zero();
    assert_eq!(n, Vec2::new(707, 707));
    assert!(n.length() <= 1000);
}

use boids::vec2::Vec2;
use boids::boid::Boid;
use boids::config::Config;
use boids::forces::{attraction_force, avoidance_force};
use boids::flocking::flock_forces;

fn cfg() -> Config {
    Config::default()
}

#[test]
fn avoidance_is_zero_at_exactly_the_avoidance_distance() {
    // arena 100 x 100 units, avoidance distance 10: a boid 10 units from the
    // left edge gets nothing
    let f = avoidance_force(Vec2::new(-40_000, 0), 100_000, 100_000, &cfg());
    assert_eq!(f, Vec2::new(0, 0));
}

#[test]
fn avoidance_is_maximal_at_the_edge() {
    // on the left edge itself: the full weight, pushing right (inward)
    let f = avoidance_force(Vec2::new(-50_000, 0), 100_000, 100_000, &cfg());
    assert_eq!(f, Vec2::new(30_000, 0));
    // on the top edge: the full weight, pushing down
    let f = avoidance_force(Vec2::new(0, 50_000), 100_000, 100_000, &cfg());
    assert_eq!(f, Vec2::new(0, -30_000));
}

#[test]
fn avoidance_within_the_falloff_still_carries_full_weight_after_normalization() {
    let f = avoidance_force(Vec2::new(-45_000, 0), 100_000, 100_000, &cfg());
    assert_eq!(f, Vec2::new(30_000, 0));
}

#[test]
fn attraction_pulls_within_capture_distance() {
    let f = attraction_force(Vec2::new(0, 0), Some(Vec2::new(5_000, 0)), &cfg());
    assert_eq!(f, Vec2::new(30_000, 0));
}

#[test]
fn attraction_ignores_a_sample_out_of_range() {
    // capture distance is 100 units; a point 200 units off pulls nothing
    let f = attraction_force(Vec2::new(0, 0), Some(Vec2::new(200_000, 0)), &cfg());
    assert_eq!(f, Vec2::new(0, 0));
}

#[test]
fn attraction_absent_without_a_sample() {
    let f = attraction_force(Vec2::new(0, 0), None, &cfg());
    assert_eq!(f, Vec2::new(0, 0));
}

#[test]
fn attraction_on_the_point_itself_is_zero() {
    let f = attraction_force(Vec2::new(7_000, -2_000), Some(Vec2::new(7_000, -2_000)), &cfg());
    assert_eq!(f, Vec2::new(0, 0));
}

#[test]
fn flocking_forces_are_zero_without_neighbors() {
    // two boids 100 units apart see nothing at view radius 50
    let flock = vec![
        Boid::new(Vec2::new(0, 0), Vec2::new(1_000, 0), 2_500),
        Boid::new(Vec2::new(100_000, 0), Vec2::new(0, 1_000), 2_500),
    ];
    let (a, c, s) = flock_forces(&flock, 0, &cfg());
    assert_eq!(a, Vec2::new(0, 0));
    assert_eq!(c, Vec2::new(0, 0));
    assert_eq!(s, Vec2::new(0, 0));
}

#[test]
fn flocking_forces_for_a_close_pair() {
    // boids at (0, 0) and (10, 0), both at rest: alignment averages a zero
    // velocity, cohesion pulls toward the other, separation pushes away
    let flock = vec![
        Boid::new(Vec2::new(0, 0), Vec2::new(0, 0), 2_500),
        Boid::new(Vec2::new(10_000, 0), Vec2::new(0, 0), 2_500),
    ];
    let (a, c, s) = flock_forces(&flock, 0, &cfg());
    assert_eq!(a, Vec2::new(0, 0));
    assert_eq!(c, Vec2::new(15_000, 0));
    assert_eq!(s, Vec2::new(-17_000, 0));
    // and anti-symmetrically for the other boid
    let (a2, c2, s2) = flock_forces(&flock, 1, &cfg());
    assert_eq!(a2, Vec2::new(0, 0));
    assert_eq!(c2, Vec2::new(-15_000, 0));
    assert_eq!(s2, Vec2::new(17_000, 0));
}

#[test]
fn separation_magnitude_scales_inversely_with_distance() {
    // the raw pair push is SCALE^2 / d; with a single neighbor the normalized
    // force keeps only the direction, so compare two-boid flocks indirectly:
    // a boid exactly on top of another (distance 0) is not a neighbor at all
    let flock = vec![
        Boid::new(Vec2::new(4_000, 4_000), Vec2::new(0, 0), 2_500),
        Boid::new(Vec2::new(4_000, 4_000), Vec2::new(0, 0), 2_500),
    ];
    let (a, c, s) = flock_forces(&flock, 0, &cfg());
    assert_eq!(a, Vec2::new(0, 0));
    assert_eq!(c, Vec2::new(0, 0));
    assert_eq!(s, Vec2::new(0, 0));
}

#[test]
fn alignment_from_a_barely_moving_neighbor_stays_at_its_weight() {
    // one neighbor drifting at a thousandth of a unit per second on each
    // axis: the alignment force points its way with the magnitude of the
    // alignment weight (15); sub-unit accumulators must not stretch it
    let flock = vec![
        Boid::new(Vec2::new(0, 0), Vec2::new(0, 0), 2_500),
        Boid::new(Vec2::new(10_000, 0), Vec2::new(1, 1), 2_500),
    ];
    let (a, _, _) = flock_forces(&flock, 0, &cfg());
    assert_eq!(a, Vec2::new(10_605, 10_605));
    assert!(a.length() <= 15_000);
    assert!(a.length() >= 14_900);
}

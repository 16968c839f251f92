use boids::vec2::Vec2;
use boids::boid::Boid;
use boids::border::make_borders;
use boids::config::Config;
use boids::tick::{apply_velocity, check_for_collisions, update_velocities};
use boids::world::WorldState;

fn cfg() -> Config {
    Config::default()
}

#[test]
fn close_pair_separates_with_separation_dominating() {
    // two boids at (0, 0) and (10, 0), at rest, in a large arena: after one
    // one-second tick, cohesion (weight 15) pulls them together, separation
    // (weight 17) pushes them apart and wins by 2 units per second
    let flock = vec![
        Boid::new(Vec2::new(0, 0), Vec2::new(0, 0), 2_500),
        Boid::new(Vec2::new(10_000, 0), Vec2::new(0, 0), 2_500),
    ];
    let mut w = WorldState::from_boids(1_000_000, 1_000_000, cfg(), flock).unwrap();
    assert!(w.tick(1_000, None).is_ok());
    assert_eq!(w.boid_velocity(0), Vec2::new(-2_000, 0));
    assert_eq!(w.boid_velocity(1), Vec2::new(2_000, 0));
    assert_eq!(w.boid_position(0), Vec2::new(-2_000, 0));
    assert_eq!(w.boid_position(1), Vec2::new(12_000, 0));
    assert!(w.boid_velocity(0).length() <= 300_000);
    assert!(w.boid_velocity(1).length() <= 300_000);
}

#[test]
fn speed_never_exceeds_the_limit_after_a_tick() {
    let w0 = WorldState::initialize(400_000, 400_000, 60, cfg()).unwrap();
    let mut w = w0;
    for _ in 0..5 {
        assert!(w.tick(16, Some(Vec2::new(30_000, -20_000))).is_ok());
        for i in 0..w.boid_count() {
            assert!(w.boid_velocity(i).length() <= 300_000);
        }
    }
}

#[test]
fn zero_time_steps_move_nothing() {
    let flock = vec![
        Boid::new(Vec2::new(0, 0), Vec2::new(5_000, 1_000), 2_500),
        Boid::new(Vec2::new(10_000, 0), Vec2::new(-3_000, 0), 2_500),
        Boid::new(Vec2::new(-44_000, 17_000), Vec2::new(0, 0), 2_500),
    ];
    let mut w = WorldState::from_boids(100_000, 100_000, cfg(), flock).unwrap();
    let before: Vec<Vec2> = (0..3).map(|i| w.boid_position(i)).collect();
    for _ in 0..4 {
        assert!(w.tick(0, None).is_ok());
        for i in 0..3 {
            assert_eq!(w.boid_position(i), before[i]);
        }
    }
}

#[test]
fn an_isolated_resting_boid_far_from_everything_stays_put() {
    // no neighbors, no nearby edge, no attraction: every force is zero, so
    // the recomputed velocity is zero and the boid does not move
    let flock = vec![Boid::new(Vec2::new(0, 0), Vec2::new(0, 0), 2_500)];
    let mut w = WorldState::from_boids(1_000_000, 1_000_000, cfg(), flock).unwrap();
    for _ in 0..3 {
        assert!(w.tick(1_000, None).is_ok());
        assert_eq!(w.boid_position(0), Vec2::new(0, 0));
        assert_eq!(w.boid_velocity(0), Vec2::new(0, 0));
    }
}

#[test]
fn crossing_the_right_border_reflects_the_velocity_once() {
    // a boid at (49, 0) moving right at 300 in a 100 x 100 arena: integrating
    // 2 fixed-point seconds of movement carries it into the right border;
    // the resolver negates the x velocity, and a second pass leaves the
    // already-reflected velocity alone
    let flock = vec![Boid::new(Vec2::new(49_000, 0), Vec2::new(300_000, 0), 2_500)];
    let borders = make_borders(100_000, 100_000, 10_000);
    let moved = apply_velocity(&flock, 2);
    assert_eq!(moved[0].position, Vec2::new(49_600, 0));
    let resolved = check_for_collisions(&moved, &borders);
    assert_eq!(resolved[0].velocity, Vec2::new(-300_000, 0));
    // next tick's movement, still overlapping the border
    let moved2 = apply_velocity(&resolved, 2);
    assert_eq!(moved2[0].position, Vec2::new(49_000, 0));
    let resolved2 = check_for_collisions(&moved2, &borders);
    assert_eq!(resolved2[0].velocity, Vec2::new(-300_000, 0));
}

#[test]
fn a_full_tick_near_the_border_steers_inward_and_never_rereflects() {
    // the same boid under the full tick: the force pass overwrites its
    // velocity with the avoidance push (one unit from the edge), movement is
    // leftward, and the collision pass leaves the inward velocity alone
    let flock = vec![Boid::new(Vec2::new(49_000, 0), Vec2::new(300_000, 0), 2_500)];
    let mut w = WorldState::from_boids(100_000, 100_000, cfg(), flock).unwrap();
    assert!(w.tick(2, None).is_ok());
    assert_eq!(w.boid_velocity(0), Vec2::new(-30_000, 0));
    assert_eq!(w.boid_position(0), Vec2::new(48_940, 0));
    assert!(w.tick(2, None).is_ok());
    assert!(w.boid_velocity(0).x < 0);
}

#[test]
fn update_velocities_keeps_positions_and_radii() {
    let flock = vec![
        Boid::new(Vec2::new(0, 0), Vec2::new(0, 0), 2_500),
        Boid::new(Vec2::new(10_000, 0), Vec2::new(0, 0), 2_500),
    ];
    let out = update_velocities(&flock, 1_000_000, 1_000_000, &cfg(), None);
    assert_eq!(out.len(), 2);
    assert_eq!(out[0].position, Vec2::new(0, 0));
    assert_eq!(out[0].radius, 2_500);
    assert_eq!(out[0].velocity, Vec2::new(-2_000, 0));
    assert_eq!(out[1].velocity, Vec2::new(2_000, 0));
}

#[test]
fn apply_velocity_integrates_by_the_time_step() {
    let flock = vec![Boid::new(Vec2::new(100, 200), Vec2::new(3_000, -1_000), 2_500)];
    let out = apply_velocity(&flock, 500);
    assert_eq!(out[0].position, Vec2::new(1_600, -300));
    assert_eq!(out[0].velocity, Vec2::new(3_000, -1_000));
    let still = apply_velocity(&flock, 0);
    assert_eq!(still[0].position, Vec2::new(100, 200));
}

#[test]
fn attraction_steers_a_lone_boid_toward_the_sample() {
    let flock = vec![Boid::new(Vec2::new(0, 0), Vec2::new(0, 0), 2_500)];
    let mut w = WorldState::from_boids(1_000_000, 1_000_000, cfg(), flock).unwrap();
    assert!(w.tick(1_000, Some(Vec2::new(5_000, 0))).is_ok());
    assert_eq!(w.boid_velocity(0), Vec2::new(30_000, 0));
    assert_eq!(w.boid_position(0), Vec2::new(30_000, 0));
    // without a sample the pull is gone and the isolated boid halts
    assert!(w.tick(1_000, None).is_ok());
    assert_eq!(w.boid_velocity(0), Vec2::new(0, 0));
}

#[test]
fn a_tight_speed_limit_clamps_the_tick_velocity_exactly() {
    // same close pair, but with the speed limit lowered to 1 unit/s: the
    // (-2, 0) net force is rescaled onto the limit circle
    let mut c = cfg();
    c.max_speed = 1_000;
    let flock = vec![
        Boid::new(Vec2::new(0, 0), Vec2::new(0, 0), 2_500),
        Boid::new(Vec2::new(10_000, 0), Vec2::new(0, 0), 2_500),
    ];
    let mut w = WorldState::from_boids(1_000_000, 1_000_000, c, flock).unwrap();
    assert!(w.tick(0, None).is_ok());
    assert_eq!(w.boid_velocity(0), Vec2::new(-1_000, 0));
    assert_eq!(w.boid_velocity(1), Vec2::new(1_000, 0));
}

#[test]
fn an_empty_flock_ticks_fine() {
    let mut w = WorldState::from_boids(100_000, 100_000, cfg(), vec![]).unwrap();
    assert!(w.tick(1_000, None).is_ok());
    assert_eq!(w.boid_count(), 0);
}

use boids::vec2::Vec2;
use boids::geom::Aabb;
use boids::boid::Boid;
use boids::config::{Config, CFG_MAX, POS_MAX, DT_MAX};
use boids::world::{SimError, WorldState};

fn cfg() -> Config {
    Config::default()
}

#[test]
fn default_config_matches_the_reference_tuning() {
    let c = cfg();
    assert_eq!(c.max_speed, 300_000);
    assert_eq!(c.view_radius, 50_000);
    assert_eq!(c.align_weight, 15_000);
    assert_eq!(c.cohesion_weight, 15_000);
    assert_eq!(c.separation_weight, 17_000);
    assert_eq!(c.avoidance_distance, 10_000);
    assert_eq!(c.avoidance_weight, 30_000);
    assert_eq!(c.attraction_weight, 30_000);
    assert_eq!(c.capture_distance, 100_000);
    assert_eq!(c.border_thickness, 10_000);
    assert_eq!(c.boid_radius, 2_500);
}

#[test]
fn empty_arena_is_rejected() {
    assert_eq!(WorldState::from_boids(0, 100_000, cfg(), vec![]).err(), Some(SimError::EmptyArena));
    assert_eq!(WorldState::from_boids(100_000, -5, cfg(), vec![]).err(), Some(SimError::EmptyArena));
    assert_eq!(WorldState::initialize(100_000, 0, 3, cfg()).err(), Some(SimError::EmptyArena));
}

#[test]
fn oversized_arena_is_rejected() {
    let r = WorldState::from_boids(POS_MAX + 1, 100_000, cfg(), vec![]);
    assert_eq!(r.err(), Some(SimError::OutOfRange));
}

#[test]
fn unusable_config_is_rejected() {
    let mut c = cfg();
    c.avoidance_distance = 0;
    assert_eq!(WorldState::from_boids(100_000, 100_000, c, vec![]).err(),
        Some(SimError::InvalidConfig));
    let mut c = cfg();
    c.max_speed = CFG_MAX + 1;
    assert_eq!(WorldState::initialize(100_000, 100_000, 2, c).err(),
        Some(SimError::InvalidConfig));
}

#[test]
fn initialize_spawns_the_asked_flock_inside_the_arena() {
    let w = WorldState::initialize(1_000_000, 800_000, 50, cfg()).unwrap();
    assert_eq!(w.boid_count(), 50);
    assert_eq!(w.width(), 1_000_000);
    assert_eq!(w.height(), 800_000);
    for i in 0..50 {
        let p = w.boid_position(i);
        let v = w.boid_velocity(i);
        // interior margin: half the dimension minus two radii
        assert!(p.x.abs() <= 500_000 - 5_000);
        assert!(p.y.abs() <= 400_000 - 5_000);
        // initial velocity components within two thirds of the speed limit
        assert!(v.x.abs() <= 200_000);
        assert!(v.y.abs() <= 200_000);
        assert!(v.length() <= 300_000);
        assert_eq!(w.boid_radius(i), 2_500);
    }
}

#[test]
fn initialize_in_a_tiny_arena_spawns_at_the_center() {
    // spawn margin exceeds the arena: the interior half-extent floors at zero
    let w = WorldState::initialize(8_000, 8_000, 4, cfg()).unwrap();
    for i in 0..4 {
        assert_eq!(w.boid_position(i), Vec2::new(0, 0));
    }
}

#[test]
fn resize_recomputes_the_borders_and_keeps_the_flock() {
    let flock = vec![Boid::new(Vec2::new(1_000, 2_000), Vec2::new(3_000, 4_000), 2_500)];
    let mut w = WorldState::from_boids(100_000, 100_000, cfg(), flock).unwrap();
    assert!(w.resize(200_000, 80_000).is_ok());
    assert_eq!(w.width(), 200_000);
    assert_eq!(w.height(), 80_000);
    assert_eq!(w.boid_count(), 1);
    assert_eq!(w.boid_position(0), Vec2::new(1_000, 2_000));
    assert_eq!(w.boid_velocity(0), Vec2::new(3_000, 4_000));
    let borders = w.borders();
    assert_eq!(borders[0], Aabb::new(Vec2::new(-105_000, 0), Vec2::new(5_000, 40_000)));
    assert_eq!(borders[3], Aabb::new(Vec2::new(0, 45_000), Vec2::new(100_000, 5_000)));
}

#[test]
fn resize_to_an_empty_arena_changes_nothing() {
    let mut w = WorldState::from_boids(100_000, 100_000, cfg(), vec![]).unwrap();
    assert_eq!(w.resize(0, 50_000).err(), Some(SimError::EmptyArena));
    assert_eq!(w.width(), 100_000);
    assert_eq!(w.height(), 100_000);
}

#[test]
fn tick_rejects_a_negative_time_step() {
    let flock = vec![Boid::new(Vec2::new(0, 0), Vec2::new(1_000, 0), 2_500)];
    let mut w = WorldState::from_boids(100_000, 100_000, cfg(), flock).unwrap();
    assert_eq!(w.tick(-1, None).err(), Some(SimError::NegativeDelta));
    // a rejected tick applies nothing
    assert_eq!(w.boid_position(0), Vec2::new(0, 0));
    assert_eq!(w.boid_velocity(0), Vec2::new(1_000, 0));
}

#[test]
fn tick_rejects_an_oversized_time_step() {
    let mut w = WorldState::from_boids(100_000, 100_000, cfg(), vec![]).unwrap();
    assert_eq!(w.tick(DT_MAX + 1, None).err(), Some(SimError::OutOfRange));
}

#[test]
fn tick_rejects_state_beyond_the_numeric_range() {
    let flock = vec![Boid::new(Vec2::new(POS_MAX + 1, 0), Vec2::new(0, 0), 2_500)];
    let mut w = WorldState::from_boids(100_000, 100_000, cfg(), flock).unwrap();
    assert_eq!(w.tick(1_000, None).err(), Some(SimError::OutOfRange));
    assert_eq!(w.boid_position(0), Vec2::new(POS_MAX + 1, 0));
}

#[test]
fn tick_rejects_an_attraction_sample_beyond_the_numeric_range() {
    let mut w = WorldState::from_boids(100_000, 100_000, cfg(), vec![]).unwrap();
    let r = w.tick(1_000, Some(Vec2::new(POS_MAX + 1, 0)));
    assert_eq!(r.err(), Some(SimError::OutOfRange));
}

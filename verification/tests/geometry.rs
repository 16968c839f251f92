use boids::vec2::Vec2;
use boids::geom::{Aabb, CollisionSide, aabb_circle_intersect, boid_collision,
    closest_point_on_aabb, reflect};
use boids::border::{BorderLocation, make_borders};

fn unit_box() -> Aabb {
    Aabb::new(Vec2::new(0, 0), Vec2::new(5000, 5000))
}

#[test]
fn closest_point_clamps_each_axis() {
    let b = unit_box();
    assert_eq!(closest_point_on_aabb(&b, Vec2::new(-9000, 2000)), Vec2::new(-5000, 2000));
    assert_eq!(closest_point_on_aabb(&b, Vec2::new(9000, 9000)), Vec2::new(5000, 5000));
    assert_eq!(closest_point_on_aabb(&b, Vec2::new(100, -200)), Vec2::new(100, -200));
}

#[test]
fn intersection_is_by_distance_to_closest_point() {
    let b = unit_box();
    assert!(aabb_circle_intersect(&b, Vec2::new(-7000, 0), 2500));
    assert!(!aabb_circle_intersect(&b, Vec2::new(-20000, 0), 2500));
    // touching exactly counts as intersecting
    assert!(aabb_circle_intersect(&b, Vec2::new(7500, 0), 2500));
    assert!(!aabb_circle_intersect(&b, Vec2::new(7501, 0), 2500));
    // a center inside the box always intersects
    assert!(aabb_circle_intersect(&b, Vec2::new(0, 0), 1));
}

#[test]
fn collision_side_follows_dominant_offset_axis() {
    let b = unit_box();
    assert_eq!(boid_collision(Vec2::new(-7000, 0), 2500, &b), Some(CollisionSide::Left));
    assert_eq!(boid_collision(Vec2::new(7000, 0), 2500, &b), Some(CollisionSide::Right));
    assert_eq!(boid_collision(Vec2::new(0, 7000), 2500, &b), Some(CollisionSide::Top));
    assert_eq!(boid_collision(Vec2::new(0, -7000), 2500, &b), Some(CollisionSide::Bottom));
    assert_eq!(boid_collision(Vec2::new(20000, 0), 2500, &b), None);
}

#[test]
fn collision_tie_on_axes_resolves_to_bottom() {
    // a circle centered inside the box has a zero offset: |x| > |y| fails and
    // y > 0 fails, so the nominal side is Bottom
    let b = unit_box();
    assert_eq!(boid_collision(Vec2::new(0, 0), 2500, &b), Some(CollisionSide::Bottom));
}

#[test]
fn reflect_flips_only_the_opposing_axis() {
    let v = Vec2::new(5000, -3000);
    // moving right into a border's left face: x flips, y stays
    assert_eq!(reflect(v, CollisionSide::Left), Vec2::new(-5000, -3000));
    // already moving away: unchanged
    assert_eq!(reflect(Vec2::new(-5000, -3000), CollisionSide::Left), Vec2::new(-5000, -3000));
    assert_eq!(reflect(Vec2::new(-5000, -3000), CollisionSide::Right), Vec2::new(5000, -3000));
    assert_eq!(reflect(v, CollisionSide::Right), v);
    assert_eq!(reflect(v, CollisionSide::Top), Vec2::new(5000, 3000));
    assert_eq!(reflect(Vec2::new(5000, 3000), CollisionSide::Top), Vec2::new(5000, 3000));
    assert_eq!(reflect(Vec2::new(5000, 3000), CollisionSide::Bottom), Vec2::new(5000, -3000));
    assert_eq!(reflect(v, CollisionSide::Bottom), v);
}

#[test]
fn borders_sit_flush_outside_the_arena_edges() {
    // arena 100 x 100 units, borders 10 units thick: the left border's inner
    // face must lie on x = -50 units
    let borders = make_borders(100_000, 100_000, 10_000);
    assert_eq!(borders.len(), 4);
    assert_eq!(borders[0], Aabb::new(Vec2::new(-55_000, 0), Vec2::new(5_000, 50_000)));
    assert_eq!(borders[1], Aabb::new(Vec2::new(55_000, 0), Vec2::new(5_000, 50_000)));
    assert_eq!(borders[2], Aabb::new(Vec2::new(0, -55_000), Vec2::new(50_000, 5_000)));
    assert_eq!(borders[3], Aabb::new(Vec2::new(0, 55_000), Vec2::new(50_000, 5_000)));
}

#[test]
fn border_location_size_and_position() {
    let loc = BorderLocation::Right;
    assert_eq!(loc.size(100_000, 80_000, 10_000), Vec2::new(10_000, 80_000));
    assert_eq!(loc.position(100_000, 80_000, 10_000), Vec2::new(55_000, 0));
    let loc = BorderLocation::Top;
    assert_eq!(loc.size(100_000, 80_000, 10_000), Vec2::new(100_000, 10_000));
    assert_eq!(loc.position(100_000, 80_000, 10_000), Vec2::new(0, 45_000));
}

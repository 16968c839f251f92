use vstd::prelude::*;
use crate::math::abs_i;
use crate::vec2::{Vec2, Vec2i, v_zero, v_sub, norm2, len_of};

verus! {

/// An axis-aligned box given by its center and half extents, the collision
/// geometry of a border.
#[derive(Clone, Copy, Debug, PartialEq, Eq, Structural)]
pub struct Aabb {
    pub center: Vec2,
    pub half: Vec2,
}

/// The mathematical model of an `Aabb`.
pub struct AabbM {
    pub center: Vec2i,
    pub half: Vec2i,
}

impl View for Aabb {
    type V = AabbM;

    open spec fn view(&self) -> AabbM {
        AabbM { center: self.center@, half: self.half@ }
    }
}

/// The side of a border box that a boid hit.
#[derive(Clone, Copy, Debug, PartialEq, Eq, Structural)]
pub enum CollisionSide {
    Left,
    Right,
    Top,
    Bottom,
}

pub open spec fn clamp_i(v: int, lo: int, hi: int) -> int {
    if v < lo {
        lo
    } else if v > hi {
        hi
    } else {
        v
    }
}

/// The point of the box nearest to `p`: each coordinate clamped to the box.
pub open spec fn closest_point_spec(b: AabbM, p: Vec2i) -> Vec2i {
    Vec2i {
        x: clamp_i(p.x, b.center.x - b.half.x, b.center.x + b.half.x),
        y: clamp_i(p.y, b.center.y - b.half.y, b.center.y + b.half.y),
    }
}

/// The circle around `c` of radius `r` meets the box exactly when the box's
/// nearest point is within `r` of `c`.
pub open spec fn intersects_spec(b: AabbM, c: Vec2i, r: int) -> bool {
    norm2(v_sub(c, closest_point_spec(b, c))) <= r * r
}

/// The nominal collision side, from the offset of the circle's center off the
/// box's nearest point: the dominant axis decides, ties go to the y axis.
pub open spec fn side_of_offset(offset: Vec2i) -> CollisionSide {
    if abs_i(offset.x) > abs_i(offset.y) {
        if offset.x < 0 {
            CollisionSide::Left
        } else {
            CollisionSide::Right
        }
    } else if offset.y > 0 {
        CollisionSide::Top
    } else {
        CollisionSide::Bottom
    }
}

/// Which side of the box a circle hit, if it intersects the box at all.
pub open spec fn boid_collision_spec(c: Vec2i, r: int, b: AabbM) -> Option<CollisionSide> {
    if !intersects_spec(b, c, r) {
        None
    } else {
        Some(side_of_offset(v_sub(c, closest_point_spec(b, c))))
    }
}

/// Reflection is conditional: the velocity axis matching the resolved side is
/// negated only while the boid still moves into the border, so a boid already
/// reflected is not trapped against the surface.
pub open spec fn reflect_spec(vel: Vec2i, side: CollisionSide) -> Vec2i {
    match side {
        CollisionSide::Left => if vel.x > 0 {
            Vec2i { x: -vel.x, y: vel.y }
        } else {
            vel
        },
        CollisionSide::Right => if vel.x < 0 {
            Vec2i { x: -vel.x, y: vel.y }
        } else {
            vel
        },
        CollisionSide::Top => if vel.y < 0 {
            Vec2i { x: vel.x, y: -vel.y }
        } else {
            vel
        },
        CollisionSide::Bottom => if vel.y > 0 {
            Vec2i { x: vel.x, y: -vel.y }
        } else {
            vel
        },
    }
}

/// One collision step against one border: reflect the velocity if the circle
/// at `pos` with radius `radius` hits the box.
pub open spec fn resolve_one_spec(pos: Vec2i, radius: int, vel: Vec2i, b: AabbM) -> Vec2i {
    match boid_collision_spec(pos, radius, b) {
        None => vel,
        Some(side) => reflect_spec(vel, side),
    }
}

/// Collision steps against the first `k` borders, in order.
pub open spec fn resolve_spec(pos: Vec2i, radius: int, vel: Vec2i, borders: Seq<AabbM>, k: int) -> Vec2i
    decreases k,
{
    if k <= 0 {
        vel
    } else {
        resolve_one_spec(pos, radius, resolve_spec(pos, radius, vel, borders, k - 1), borders[k - 1])
    }
}

/// Reflection never changes the speed: it negates at most one coordinate.
pub proof fn lemma_reflect_len(vel: Vec2i, side: CollisionSide)
    ensures
        len_of(reflect_spec(vel, side)) == len_of(vel),
        norm2(reflect_spec(vel, side)) == norm2(vel),
{
    let r = reflect_spec(vel, side);
    assert(norm2(r) == norm2(vel)) by (nonlinear_arith)
        requires
            (r.x == vel.x || r.x == -vel.x) && (r.y == vel.y || r.y == -vel.y),
            norm2(r) == r.x * r.x + r.y * r.y,
            norm2(vel) == vel.x * vel.x + vel.y * vel.y,
    ;
}

/// A whole collision pass never changes the speed.
pub proof fn lemma_resolve_len(pos: Vec2i, radius: int, vel: Vec2i, borders: Seq<AabbM>, k: int)
    ensures
        len_of(resolve_spec(pos, radius, vel, borders, k)) == len_of(vel),
        norm2(resolve_spec(pos, radius, vel, borders, k)) == norm2(vel),
    decreases k,
{
    if k > 0 {
        lemma_resolve_len(pos, radius, vel, borders, k - 1);
        let prev = resolve_spec(pos, radius, vel, borders, k - 1);
        match boid_collision_spec(pos, radius, borders[k - 1]) {
            None => {},
            Some(side) => {
                lemma_reflect_len(prev, side);
            },
        }
    }
}

/// A boid at rest is never reflected: every side's condition asks for motion
/// into the border.
pub proof fn lemma_resolve_zero(pos: Vec2i, radius: int, borders: Seq<AabbM>, k: int)
    ensures
        resolve_spec(pos, radius, v_zero(), borders, k) == v_zero(),
    decreases k,
{
    if k > 0 {
        lemma_resolve_zero(pos, radius, borders, k - 1);
    }
}

impl Aabb {
    pub fn new(center: Vec2, half: Vec2) -> (r: Aabb)
        ensures
            r@ == (AabbM { center: center@, half: half@ }),
    {
        Aabb { center, half }
    }
}

/// The point of the box nearest to `p`.
pub fn closest_point_on_aabb(b: &Aabb, p: Vec2) -> (r: Vec2)
    requires
        abs_i(b@.center.x) + abs_i(b@.half.x) <= i64::MAX,
        abs_i(b@.center.y) + abs_i(b@.half.y) <= i64::MAX,
    ensures
        r@ == closest_point_spec(b@, p@),
{
    let lo_x = b.center.x - b.half.x;
    let hi_x = b.center.x + b.half.x;
    let lo_y = b.center.y - b.half.y;
    let hi_y = b.center.y + b.half.y;
    let x = if p.x < lo_x {
        lo_x
    } else if p.x > hi_x {
        hi_x
    } else {
        p.x
    };
    let y = if p.y < lo_y {
        lo_y
    } else if p.y > hi_y {
        hi_y
    } else {
        p.y
    };
    Vec2 { x, y }
}

/// Whether the circle at `c` with radius `r` meets the box (touching counts).
pub fn aabb_circle_intersect(b: &Aabb, c: Vec2, r: i64) -> (res: bool)
    requires
        abs_i(b@.center.x) + abs_i(b@.half.x) <= i64::MAX,
        abs_i(b@.center.y) + abs_i(b@.half.y) <= i64::MAX,
        abs_i(b@.center.x) + abs_i(b@.half.x) <= 0x2000_0000_0000_0000,
        abs_i(b@.center.y) + abs_i(b@.half.y) <= 0x2000_0000_0000_0000,
        abs_i(c@.x) <= 0x2000_0000_0000_0000,
        abs_i(c@.y) <= 0x2000_0000_0000_0000,
        0 <= r <= 0x2000_0000_0000_0000,
    ensures
        res == intersects_spec(b@, c@, r as int),
{
    let closest = closest_point_on_aabb(b, c);
    let dx: i128 = (c.x as i128) - (closest.x as i128);
    let dy: i128 = (c.y as i128) - (closest.y as i128);
    proof {
        assert(dx * dx <= 0x4000_0000_0000_0000 * 0x4000_0000_0000_0000
            && dy * dy <= 0x4000_0000_0000_0000 * 0x4000_0000_0000_0000
            && 0 <= dx * dx && 0 <= dy * dy
            && (r as int) * (r as int) <= 0x2000_0000_0000_0000 * 0x2000_0000_0000_0000)
            by (nonlinear_arith)
            requires
                abs_i(dx as int) <= 0x4000_0000_0000_0000,
                abs_i(dy as int) <= 0x4000_0000_0000_0000,
                0 <= r <= 0x2000_0000_0000_0000,
        ;
    }
    let d2: i128 = dx * dx + dy * dy;
    let r2: i128 = (r as i128) * (r as i128);
    d2 <= r2
}

/// Which side of the box the circle hit, if it intersects the box at all.
/// `None` means no contact.
pub fn boid_collision(c: Vec2, r: i64, b: &Aabb) -> (res: Option<CollisionSide>)
    requires
        abs_i(b@.center.x) + abs_i(b@.half.x) <= 0x2000_0000_0000_0000,
        abs_i(b@.center.y) + abs_i(b@.half.y) <= 0x2000_0000_0000_0000,
        abs_i(c@.x) <= 0x2000_0000_0000_0000,
        abs_i(c@.y) <= 0x2000_0000_0000_0000,
        0 <= r <= 0x2000_0000_0000_0000,
    ensures
        res == boid_collision_spec(c@, r as int, b@),
{
    if !aabb_circle_intersect(b, c, r) {
        return None;
    }
    let closest = closest_point_on_aabb(b, c);
    let off_x: i64 = c.x - closest.x;
    let off_y: i64 = c.y - closest.y;
    let ax: i64 = if off_x >= 0 {
        off_x
    } else {
        -off_x
    };
    let ay: i64 = if off_y >= 0 {
        off_y
    } else {
        -off_y
    };
    let side = if ax > ay {
        if off_x < 0 {
            CollisionSide::Left
        } else {
            CollisionSide::Right
        }
    } else if off_y > 0 {
        CollisionSide::Top
    } else {
        CollisionSide::Bottom
    };
    Some(side)
}

/// Reflect `vel` off the given side, only while still moving into it.
pub fn reflect(vel: Vec2, side: CollisionSide) -> (r: Vec2)
    requires
        vel@.x != i64::MIN,
        vel@.y != i64::MIN,
    ensures
        r@ == reflect_spec(vel@, side),
{
    match side {
        CollisionSide::Left => if vel.x > 0 {
            Vec2 { x: -vel.x, y: vel.y }
        } else {
            vel
        },
        CollisionSide::Right => if vel.x < 0 {
            Vec2 { x: -vel.x, y: vel.y }
        } else {
            vel
        },
        CollisionSide::Top => if vel.y < 0 {
            Vec2 { x: vel.x, y: -vel.y }
        } else {
            vel
        },
        CollisionSide::Bottom => if vel.y > 0 {
            Vec2 { x: vel.x, y: -vel.y }
        } else {
            vel
        },
    }
}

} // verus!

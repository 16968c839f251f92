use vstd::prelude::*;
use crate::math::div_t;
use crate::vec2::{Vec2, Vec2i};
use crate::geom::{Aabb, AabbM};
use crate::config::{CFG_MAX, POS_MAX};

verus! {

/// Which side of the arena a border sits on.
#[derive(Clone, Copy, Debug, PartialEq, Eq, Structural)]
pub enum BorderLocation {
    Left,
    Right,
    Bottom,
    Top,
}

/// The (x, y) dimensions of a border: the side borders run the arena's
/// height, the top and bottom ones its width, all `thickness` deep.
pub open spec fn border_size_spec(loc: BorderLocation, width: int, height: int, thickness: int) -> Vec2i {
    match loc {
        BorderLocation::Left | BorderLocation::Right => Vec2i { x: thickness, y: height },
        BorderLocation::Bottom | BorderLocation::Top => Vec2i { x: width, y: thickness },
    }
}

/// A border's center: half a thickness outside the arena edge, so its inner
/// face is flush with the visible boundary.
pub open spec fn border_position_spec(loc: BorderLocation, width: int, height: int, thickness: int) -> Vec2i {
    match loc {
        BorderLocation::Left => Vec2i { x: -div_t(width, 2) - div_t(thickness, 2), y: 0 },
        BorderLocation::Right => Vec2i { x: div_t(width, 2) + div_t(thickness, 2), y: 0 },
        BorderLocation::Bottom => Vec2i { x: 0, y: -div_t(height, 2) - div_t(thickness, 2) },
        BorderLocation::Top => Vec2i { x: 0, y: div_t(height, 2) + div_t(thickness, 2) },
    }
}

/// A border's collision box.
pub open spec fn border_aabb_spec(loc: BorderLocation, width: int, height: int, thickness: int) -> AabbM {
    let size = border_size_spec(loc, width, height, thickness);
    AabbM {
        center: border_position_spec(loc, width, height, thickness),
        half: Vec2i { x: div_t(size.x, 2), y: div_t(size.y, 2) },
    }
}

/// The four borders of an arena, in a fixed order.
pub open spec fn borders_spec(width: int, height: int, thickness: int) -> Seq<AabbM> {
    seq![
        border_aabb_spec(BorderLocation::Left, width, height, thickness),
        border_aabb_spec(BorderLocation::Right, width, height, thickness),
        border_aabb_spec(BorderLocation::Bottom, width, height, thickness),
        border_aabb_spec(BorderLocation::Top, width, height, thickness),
    ]
}

/// The borders sit outside the arena: each one's inner face lies exactly on
/// the visible arena boundary, so they never overlap the interior.
pub proof fn lemma_borders_flush(width: int, height: int, thickness: int)
    ensures
        ({
            let b = border_aabb_spec(BorderLocation::Left, width, height, thickness);
            b.center.x + b.half.x == -div_t(width, 2)
        }),
        ({
            let b = border_aabb_spec(BorderLocation::Right, width, height, thickness);
            b.center.x - b.half.x == div_t(width, 2)
        }),
        ({
            let b = border_aabb_spec(BorderLocation::Bottom, width, height, thickness);
            b.center.y + b.half.y == -div_t(height, 2)
        }),
        ({
            let b = border_aabb_spec(BorderLocation::Top, width, height, thickness);
            b.center.y - b.half.y == div_t(height, 2)
        }),
{
}

/// Acceptable arena dimensions: positive and within the numeric range.
pub open spec fn wf_arena(width: int, height: int) -> bool {
    1 <= width <= POS_MAX && 1 <= height <= POS_MAX
}

impl BorderLocation {
    /// The (x, y) dimensions of this border.
    pub fn size(&self, width: i64, height: i64, thickness: i64) -> (r: Vec2)
        requires
            wf_arena(width as int, height as int),
            0 <= thickness <= CFG_MAX,
        ensures
            r@ == border_size_spec(*self, width as int, height as int, thickness as int),
    {
        match self {
            BorderLocation::Left | BorderLocation::Right => Vec2 { x: thickness, y: height },
            BorderLocation::Bottom | BorderLocation::Top => Vec2 { x: width, y: thickness },
        }
    }

    /// The center of this border.
    pub fn position(&self, width: i64, height: i64, thickness: i64) -> (r: Vec2)
        requires
            wf_arena(width as int, height as int),
            0 <= thickness <= CFG_MAX,
        ensures
            r@ == border_position_spec(*self, width as int, height as int, thickness as int),
    {
        match self {
            BorderLocation::Left => Vec2 { x: -(width / 2) - thickness / 2, y: 0 },
            BorderLocation::Right => Vec2 { x: width / 2 + thickness / 2, y: 0 },
            BorderLocation::Bottom => Vec2 { x: 0, y: -(height / 2) - thickness / 2 },
            BorderLocation::Top => Vec2 { x: 0, y: height / 2 + thickness / 2 },
        }
    }

    /// This border's collision box.
    pub fn to_aabb(&self, width: i64, height: i64, thickness: i64) -> (r: Aabb)
        requires
            wf_arena(width as int, height as int),
            0 <= thickness <= CFG_MAX,
        ensures
            r@ == border_aabb_spec(*self, width as int, height as int, thickness as int),
    {
        let size = self.size(width, height, thickness);
        let center = self.position(width, height, thickness);
        Aabb { center, half: Vec2 { x: size.x / 2, y: size.y / 2 } }
    }
}

/// The four borders of an arena, flush with its edges.
pub fn make_borders(width: i64, height: i64, thickness: i64) -> (r: Vec<Aabb>)
    requires
        wf_arena(width as int, height as int),
        0 <= thickness <= CFG_MAX,
    ensures
        r@.len() == 4,
        forall|i: int| 0 <= i < 4 ==> #[trigger] r@[i]@ == borders_spec(
            width as int, height as int, thickness as int)[i],
{
    let mut r: Vec<Aabb> = Vec::new();
    r.push(BorderLocation::Left.to_aabb(width, height, thickness));
    r.push(BorderLocation::Right.to_aabb(width, height, thickness));
    r.push(BorderLocation::Bottom.to_aabb(width, height, thickness));
    r.push(BorderLocation::Top.to_aabb(width, height, thickness));
    r
}

} // verus!

use vstd::prelude::*;
use crate::vec2::{Vec2, Vec2i, v_bounded};
use crate::config::{CFG_MAX, POS_MAX};

verus! {

/// One simulated agent: position and velocity in fixed-point coordinates,
/// and a fixed visual/collision radius. Orientation is not stored; it is
/// derived from the velocity direction by the rendering collaborator.
#[derive(Clone, Copy, Debug, PartialEq, Eq, Structural)]
pub struct Boid {
    pub position: Vec2,
    pub velocity: Vec2,
    pub radius: i64,
}

/// The mathematical model of a `Boid`.
pub struct BoidM {
    pub pos: Vec2i,
    pub vel: Vec2i,
    pub radius: int,
}

impl View for Boid {
    type V = BoidM;

    open spec fn view(&self) -> BoidM {
        BoidM { pos: self.position@, vel: self.velocity@, radius: self.radius as int }
    }
}

impl Boid {
    pub fn new(position: Vec2, velocity: Vec2, radius: i64) -> (r: Boid)
        ensures
            r@ == (BoidM { pos: position@, vel: velocity@, radius: radius as int }),
    {
        Boid { position, velocity, radius }
    }
}

/// The model of a whole flock.
pub open spec fn boids_model(s: Seq<Boid>) -> Seq<BoidM> {
    Seq::new(s.len(), |i: int| s[i]@)
}

/// One boid within the numeric ranges a tick accepts.
pub open spec fn boid_in_range(b: BoidM) -> bool {
    &&& v_bounded(b.pos, POS_MAX as int)
    &&& v_bounded(b.vel, POS_MAX as int)
    &&& 0 <= b.radius <= CFG_MAX
}

/// Every boid of the flock within range.
pub open spec fn boids_in_range(s: Seq<BoidM>) -> bool {
    forall|i: int| 0 <= i < s.len() ==> boid_in_range(#[trigger] s[i])
}

} // verus!

use vstd::prelude::*;
use rand::Rng;
use crate::math::abs_i;
use crate::vec2::{Vec2, Vec2i, v_bounded, len_of, norm2};
use crate::geom::{Aabb, AabbM};
use crate::boid::{Boid, BoidM, boids_model, boids_in_range};
use crate::border::{borders_spec, make_borders, wf_arena};
use crate::config::{Config, ConfigM, wf_config, CFG_MAX, POS_MAX, BOIDS_MAX};
use crate::math::{div_t, lemma_sqrt_lt_square};

verus! {

/// Why a call was rejected; a rejected call changes nothing.
#[derive(Clone, Copy, Debug, PartialEq, Eq, Structural)]
pub enum SimError {
    /// A tick was asked to run time backwards.
    NegativeDelta,
    /// An arena dimension was zero or negative.
    EmptyArena,
    /// A configuration value was outside its accepted range.
    InvalidConfig,
    /// A value (dimension, time step, flock size, coordinate) was beyond the
    /// numeric range the simulation accepts.
    OutOfRange,
}

/// The model of the border list.
pub open spec fn borders_model(s: Seq<Aabb>) -> Seq<AabbM> {
    Seq::new(s.len(), |i: int| s[i]@)
}

/// The mathematical model of a `WorldState`.
pub struct WorldM {
    pub width: int,
    pub height: int,
    pub config: ConfigM,
    pub boids: Seq<BoidM>,
    pub borders: Seq<AabbM>,
}

/// The simulation state: arena dimensions, tunables, the flock, and the four
/// border boxes flush with the arena edges.
pub struct WorldState {
    width: i64,
    height: i64,
    config: Config,
    boids: Vec<Boid>,
    borders: Vec<Aabb>,
}

impl View for WorldState {
    type V = WorldM;

    closed spec fn view(&self) -> WorldM {
        WorldM {
            width: self.width as int,
            height: self.height as int,
            config: self.config@,
            boids: boids_model(self.boids@),
            borders: borders_model(self.borders@),
        }
    }
}

/// The structural invariant every `WorldState` keeps: a usable configuration,
/// a positive in-range arena, a bounded flock size, and exactly the four
/// borders that the arena dimensions dictate.
pub open spec fn wf_world(w: WorldM) -> bool {
    &&& wf_config(w.config)
    &&& wf_arena(w.width, w.height)
    &&& w.boids.len() <= BOIDS_MAX
    &&& w.borders == borders_spec(w.width, w.height, w.config.border_thickness)
}

/// The interior half-extent boids are spawned within along one axis: half the
/// dimension minus a two-radius margin, floored at zero.
pub open spec fn spawn_half(dim: int, radius: int) -> int {
    if div_t(dim, 2) - 2 * radius >= 0 {
        div_t(dim, 2) - 2 * radius
    } else {
        0
    }
}

/// Relies on rand's `Rng::gen_range` on a `rand::rngs::ThreadRng` (through
/// `rand::thread_rng`): a sample from the inclusive range `lo..=hi` lies
/// between `lo` and `hi`; it panics only on an empty range, excluded here.
/// Nothing else is assumed: every outcome in the range is acceptable.
#[verifier::external_body]
fn random_in_range(lo: i64, hi: i64) -> (r: i64)
    requires
        lo <= hi,
    ensures
        lo <= r <= hi,
{
    rand::thread_rng().gen_range(lo..=hi)
}

/// An exact copy of the flock: the per-tick read-only snapshot.
pub(crate) fn copy_boids(v: &Vec<Boid>) -> (r: Vec<Boid>)
    ensures
        r@ == v@,
{
    let mut r: Vec<Boid> = Vec::new();
    let mut i: usize = 0;
    while i < v.len()
        invariant
            i <= v@.len(),
            r@ == v@.subrange(0, i as int),
        decreases v@.len() - i,
    {
        r.push(v[i]);
        i = i + 1;
    }
    proof {
        assert(r@ =~= v@);
    }
    r
}

/// Whether every boid is within the numeric ranges a tick accepts.
pub(crate) fn boids_in_range_exec(v: &Vec<Boid>) -> (r: bool)
    ensures
        r == boids_in_range(boids_model(v@)),
{
    let mut i: usize = 0;
    while i < v.len()
        invariant
            i <= v@.len(),
            forall|k: int| 0 <= k < i ==> crate::boid::boid_in_range(#[trigger] boids_model(v@)[k]),
        decreases v@.len() - i,
    {
        let b = v[i];
        let ok = -POS_MAX <= b.position.x && b.position.x <= POS_MAX && -POS_MAX <= b.position.y
            && b.position.y <= POS_MAX && -POS_MAX <= b.velocity.x && b.velocity.x <= POS_MAX
            && -POS_MAX <= b.velocity.y && b.velocity.y <= POS_MAX && 0 <= b.radius
            && b.radius <= CFG_MAX;
        if !ok {
            proof {
                assert(!crate::boid::boid_in_range(boids_model(v@)[i as int]));
            }
            return false;
        }
        i = i + 1;
    }
    true
}

impl WorldState {
    /// The structural invariant, as seen by callers.
    pub open spec fn wf(&self) -> bool {
        wf_world(self@)
    }

    /// A world from explicitly given boids: the deterministic constructor.
    /// Rejects an empty or oversized arena, an unusable configuration, and a
    /// flock larger than `BOIDS_MAX`; otherwise takes the boids as given.
    pub fn from_boids(width: i64, height: i64, config: Config, boids: Vec<Boid>) -> (r: Result<
        WorldState,
        SimError,
    >)
        ensures
            match r {
                Ok(w) => {
                    &&& w.wf()
                    &&& wf_arena(width as int, height as int)
                    &&& wf_config(config@)
                    &&& boids@.len() <= BOIDS_MAX
                    &&& w@.width == width as int
                    &&& w@.height == height as int
                    &&& w@.config == config@
                    &&& w@.boids == boids_model(boids@)
                },
                Err(e) => {
                    &&& !(wf_arena(width as int, height as int) && wf_config(config@)
                        && boids@.len() <= BOIDS_MAX)
                    &&& e == (if width <= 0 || height <= 0 {
                        SimError::EmptyArena
                    } else if width > POS_MAX || height > POS_MAX {
                        SimError::OutOfRange
                    } else if !wf_config(config@) {
                        SimError::InvalidConfig
                    } else {
                        SimError::OutOfRange
                    })
                },
            },
    {
        if width <= 0 || height <= 0 {
            return Err(SimError::EmptyArena);
        }
        if width > POS_MAX || height > POS_MAX {
            return Err(SimError::OutOfRange);
        }
        if !config.is_valid() {
            return Err(SimError::InvalidConfig);
        }
        if boids.len() > BOIDS_MAX {
            return Err(SimError::OutOfRange);
        }
        let borders = make_borders(width, height, config.border_thickness);
        proof {
            assert(borders_model(borders@) =~= borders_spec(width as int, height as int,
                config@.border_thickness));
        }
        Ok(WorldState { width, height, config, boids, borders })
    }

    /// A world of `count` boids at randomized interior positions with
    /// randomized initial velocities. Velocity components are drawn from two
    /// thirds of the speed limit, so every boid starts below `max_speed`.
    pub fn initialize(width: i64, height: i64, count: usize, config: Config) -> (r: Result<
        WorldState,
        SimError,
    >)
        ensures
            match r {
                Ok(w) => {
                    &&& w.wf()
                    &&& w@.width == width as int
                    &&& w@.height == height as int
                    &&& w@.config == config@
                    &&& w@.boids.len() == count
                    &&& boids_in_range(w@.boids)
                    &&& forall|i: int|
                        0 <= i < count ==> {
                            let b = #[trigger] w@.boids[i];
                            &&& abs_i(b.pos.x) <= spawn_half(width as int, config@.boid_radius)
                            &&& abs_i(b.pos.y) <= spawn_half(height as int, config@.boid_radius)
                            &&& v_bounded(b.vel, 2 * config@.max_speed / 3)
                            &&& len_of(b.vel) <= config@.max_speed
                            &&& b.radius == config@.boid_radius
                        }
                },
                Err(e) => e == (if width <= 0 || height <= 0 {
                    SimError::EmptyArena
                } else if width > POS_MAX || height > POS_MAX {
                    SimError::OutOfRange
                } else if !wf_config(config@) {
                    SimError::InvalidConfig
                } else {
                    SimError::OutOfRange
                }) && !(wf_arena(width as int, height as int) && wf_config(config@) && count
                    <= BOIDS_MAX),
            },
    {
        if width <= 0 || height <= 0 {
            return Err(SimError::EmptyArena);
        }
        if width > POS_MAX || height > POS_MAX {
            return Err(SimError::OutOfRange);
        }
        if !config.is_valid() {
            return Err(SimError::InvalidConfig);
        }
        if count > BOIDS_MAX {
            return Err(SimError::OutOfRange);
        }
        let hx = {
            let t = width / 2 - 2 * config.boid_radius;
            if t >= 0 {
                t
            } else {
                0
            }
        };
        let hy = {
            let t = height / 2 - 2 * config.boid_radius;
            if t >= 0 {
                t
            } else {
                0
            }
        };
        let vmax = (2 * config.max_speed) / 3;
        let mut boids: Vec<Boid> = Vec::new();
        let mut i: usize = 0;
        while i < count
            invariant
                boids@.len() == i,
                i <= count,
                0 <= hx == spawn_half(width as int, config@.boid_radius) <= POS_MAX,
                0 <= hy == spawn_half(height as int, config@.boid_radius) <= POS_MAX,
                0 <= vmax,
                vmax as int == 2 * config@.max_speed / 3,
                3 * vmax <= 2 * config@.max_speed,
                wf_config(config@),
                forall|k: int|
                    0 <= k < i ==> {
                        let b = #[trigger] boids_model(boids@)[k];
                        &&& abs_i(b.pos.x) <= spawn_half(width as int, config@.boid_radius)
                        &&& abs_i(b.pos.y) <= spawn_half(height as int, config@.boid_radius)
                        &&& v_bounded(b.vel, 2 * config@.max_speed / 3)
                        &&& len_of(b.vel) <= config@.max_speed
                        &&& b.radius == config@.boid_radius
                        &&& crate::boid::boid_in_range(b)
                    },
            decreases count - i,
        {
            let px = random_in_range(-hx, hx);
            let py = random_in_range(-hy, hy);
            let vx = random_in_range(-vmax, vmax);
            let vy = random_in_range(-vmax, vmax);
            let b = Boid {
                position: Vec2 { x: px, y: py },
                velocity: Vec2 { x: vx, y: vy },
                radius: config.boid_radius,
            };
            proof {
                lemma_spawn_speed(b@.vel, vmax as int, config@.max_speed);
            }
            let ghost prev = boids@;
            boids.push(b);
            proof {
                assert(boids_model(boids@)[i as int] == b@);
                assert(forall|k: int|
                    0 <= k < i ==> #[trigger] boids_model(boids@)[k] == boids_model(prev)[k]);
            }
            i = i + 1;
        }
        match Self::from_boids(width, height, config, boids) {
            Ok(w) => Ok(w),
            Err(e) => Err(e),
        }
    }

    /// Recompute the border geometry for a resized arena; boids, tunables and
    /// everything else stay as they were. Rejected dimensions change nothing.
    pub fn resize(&mut self, new_width: i64, new_height: i64) -> (r: Result<(), SimError>)
        requires
            old(self).wf(),
        ensures
            final(self).wf(),
            match r {
                Ok(()) => {
                    &&& wf_arena(new_width as int, new_height as int)
                    &&& final(self)@.width == new_width as int
                    &&& final(self)@.height == new_height as int
                    &&& final(self)@.config == old(self)@.config
                    &&& final(self)@.boids == old(self)@.boids
                    &&& final(self)@.borders == borders_spec(new_width as int, new_height as int,
                        final(self)@.config.border_thickness)
                },
                Err(e) => {
                    &&& final(self)@ == old(self)@
                    &&& !wf_arena(new_width as int, new_height as int)
                    &&& e == (if new_width <= 0 || new_height <= 0 {
                        SimError::EmptyArena
                    } else {
                        SimError::OutOfRange
                    })
                },
            },
    {
        if new_width <= 0 || new_height <= 0 {
            return Err(SimError::EmptyArena);
        }
        if new_width > POS_MAX || new_height > POS_MAX {
            return Err(SimError::OutOfRange);
        }
        let borders = make_borders(new_width, new_height, self.config.border_thickness);
        proof {
            assert(borders_model(borders@) =~= borders_spec(new_width as int, new_height as int,
                self.config@.border_thickness));
        }
        self.width = new_width;
        self.height = new_height;
        self.borders = borders;
        Ok(())
    }

    /// How many boids the world holds; fixed for the session.
    pub fn boid_count(&self) -> (r: usize)
        ensures
            r == self@.boids.len(),
    {
        self.boids.len()
    }

    /// A boid's position, for the rendering collaborator.
    pub fn boid_position(&self, i: usize) -> (r: Vec2)
        requires
            i < self@.boids.len(),
        ensures
            r@ == self@.boids[i as int].pos,
    {
        self.boids[i].position
    }

    /// A boid's velocity; its direction is the boid's orientation.
    pub fn boid_velocity(&self, i: usize) -> (r: Vec2)
        requires
            i < self@.boids.len(),
        ensures
            r@ == self@.boids[i as int].vel,
    {
        self.boids[i].velocity
    }

    /// A boid's visual/collision radius.
    pub fn boid_radius(&self, i: usize) -> (r: i64)
        requires
            i < self@.boids.len(),
        ensures
            r as int == self@.boids[i as int].radius,
    {
        self.boids[i].radius
    }

    /// The arena width.
    pub fn width(&self) -> (r: i64)
        ensures
            r as int == self@.width,
    {
        self.width
    }

    /// The arena height.
    pub fn height(&self) -> (r: i64)
        ensures
            r as int == self@.height,
    {
        self.height
    }

    /// The tunables this world runs with.
    pub fn config(&self) -> (r: Config)
        ensures
            r@ == self@.config,
    {
        self.config
    }

    /// The border collision boxes, in their fixed order: left, right, bottom,
    /// top.
    pub fn borders(&self) -> (r: &Vec<Aabb>)
        ensures
            borders_model(r@) == self@.borders,
    {
        &self.borders
    }

    pub(crate) fn boids_ref(&self) -> (r: &Vec<Boid>)
        ensures
            boids_model(r@) == self@.boids,
    {
        &self.boids
    }

    pub(crate) fn set_boids(&mut self, boids: Vec<Boid>)
        requires
            old(self).wf(),
            boids@.len() == old(self)@.boids.len(),
        ensures
            final(self).wf(),
            final(self)@ == (WorldM { boids: boids_model(boids@), ..old(self)@ }),
    {
        self.boids = boids;
    }
}

/// Velocity components drawn from two thirds of the speed limit keep the
/// speed below the limit.
proof fn lemma_spawn_speed(v: Vec2i, vmax: int, max_speed: int)
    requires
        0 <= vmax,
        3 * vmax <= 2 * max_speed,
        v_bounded(v, vmax),
    ensures
        len_of(v) <= max_speed,
{
    if max_speed == 0 {
        assert(vmax == 0);
        assert(v.x == 0 && v.y == 0);
        crate::vec2::lemma_component_le_len(v);
        assert(norm2(v) == 0) by (nonlinear_arith)
            requires
                v.x == 0 && v.y == 0,
        ;
        crate::math::lemma_sqrt_props(0);
    } else {
        assert(0 <= norm2(v) < (max_speed + 1) * (max_speed + 1)) by (nonlinear_arith)
            requires
                -vmax <= v.x <= vmax,
                -vmax <= v.y <= vmax,
                0 <= vmax,
                3 * vmax <= 2 * max_speed,
                1 <= max_speed,
                norm2(v) == v.x * v.x + v.y * v.y,
        ;
        lemma_sqrt_lt_square(norm2(v), max_speed + 1);
    }
}

} // verus!

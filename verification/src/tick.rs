use vstd::prelude::*;
use crate::math::{abs_i, div_t, lemma_div_t_mul_le, lemma_div_t_mag};
use crate::vec2::{Vec2, Vec2i, SCALE, v_add, v_bounded, len_of, clamp_spec};
use crate::geom::{Aabb, AabbM, boid_collision, reflect, resolve_spec};
use crate::boid::{Boid, BoidM, boids_model, boids_in_range, boid_in_range};
use crate::border::{borders_spec, wf_arena};
use crate::config::{Config, ConfigM, wf_config, CFG_MAX, POS_MAX, DT_MAX, BOIDS_MAX};
use crate::flocking::{flock_forces, flock_forces_spec};
use crate::forces::{avoidance_force, avoidance_spec, attraction_force, attraction_spec, opt_model};
use crate::world::{WorldState, WorldM, SimError, borders_model, copy_boids, boids_in_range_exec};

verus! {

/// A border box whose coordinates the collision routines accept.
pub open spec fn aabb_in_range(b: AabbM) -> bool {
    &&& abs_i(b.center.x) + abs_i(b.half.x) <= 0x2000_0000_0000_0000
    &&& abs_i(b.center.y) + abs_i(b.half.y) <= 0x2000_0000_0000_0000
}

/// The borders an in-range arena produces are in range themselves.
pub proof fn lemma_borders_in_range(width: int, height: int, thickness: int)
    requires
        wf_arena(width, height),
        0 <= thickness <= CFG_MAX,
    ensures
        forall|i: int|
            0 <= i < 4 ==> aabb_in_range(#[trigger] borders_spec(width, height, thickness)[i]),
{
    lemma_div_t_mag(width, 2);
    lemma_div_t_mag(height, 2);
    lemma_div_t_mag(thickness, 2);
    assert forall|i: int| 0 <= i < 4 implies aabb_in_range(
        #[trigger] borders_spec(width, height, thickness)[i],
    ) by {
        if i == 0 || i == 1 {
            assert(aabb_in_range(borders_spec(width, height, thickness)[i]));
        } else {
            assert(aabb_in_range(borders_spec(width, height, thickness)[i]));
        }
    }
}

/// A boid's new velocity: the five steering forces summed and clamped to the
/// speed limit. Forces are functions of the pre-tick snapshot alone.
pub open spec fn new_velocity_spec(
    boids: Seq<BoidM>,
    i: int,
    width: int,
    height: int,
    cfg: ConfigM,
    attract: Option<Vec2i>,
) -> Vec2i {
    let f = flock_forces_spec(boids, i, cfg);
    let av = avoidance_spec(boids[i].pos, width, height, cfg);
    let at = attraction_spec(boids[i].pos, attract, cfg);
    clamp_spec(v_add(v_add(v_add(v_add(f.0, f.1), f.2), av), at), cfg.max_speed)
}

/// The velocity-update pass: every boid's velocity is recomputed from the
/// snapshot; positions and radii stay.
pub open spec fn velocities_pass(
    boids: Seq<BoidM>,
    width: int,
    height: int,
    cfg: ConfigM,
    attract: Option<Vec2i>,
) -> Seq<BoidM> {
    Seq::new(
        boids.len(),
        |i: int|
            BoidM {
                pos: boids[i].pos,
                vel: new_velocity_spec(boids, i, width, height, cfg, attract),
                radius: boids[i].radius,
            },
    )
}

/// Euler integration of one position: `pos + vel * dt`, in fixed point.
pub open spec fn integrate_spec(pos: Vec2i, vel: Vec2i, dt: int) -> Vec2i {
    v_add(
        pos,
        Vec2i { x: div_t(vel.x * dt, SCALE as int), y: div_t(vel.y * dt, SCALE as int) },
    )
}

/// The movement pass: every boid moves by its (already updated) velocity.
pub open spec fn move_pass(boids: Seq<BoidM>, dt: int) -> Seq<BoidM> {
    Seq::new(
        boids.len(),
        |i: int|
            BoidM {
                pos: integrate_spec(boids[i].pos, boids[i].vel, dt),
                vel: boids[i].vel,
                radius: boids[i].radius,
            },
    )
}

/// The collision pass: every boid's velocity is reflected off each border it
/// overlaps, in border order; positions are never corrected (tunneling at
/// extreme speed is an accepted limitation).
pub open spec fn collisions_pass(boids: Seq<BoidM>, borders: Seq<AabbM>) -> Seq<BoidM> {
    Seq::new(
        boids.len(),
        |i: int|
            BoidM {
                pos: boids[i].pos,
                vel: resolve_spec(
                    boids[i].pos,
                    boids[i].radius,
                    boids[i].vel,
                    borders,
                    borders.len() as int,
                ),
                radius: boids[i].radius,
            },
    )
}

/// One whole tick over the flock: forces from a consistent snapshot, then
/// movement, then collision response (whose corrections act on the next
/// tick's movement).
pub open spec fn tick_boids_spec(w: WorldM, dt: int, attract: Option<Vec2i>) -> Seq<BoidM> {
    collisions_pass(
        move_pass(velocities_pass(w.boids, w.width, w.height, w.config, attract), dt),
        w.borders,
    )
}

/// One whole tick over the world: only the boids change.
pub open spec fn spec_tick(w: WorldM, dt: int, attract: Option<Vec2i>) -> WorldM {
    WorldM { boids: tick_boids_spec(w, dt, attract), ..w }
}

/// The inputs a tick accepts; anything else is rejected and changes nothing.
pub open spec fn tick_accepts(w: WorldM, dt: int, attract: Option<Vec2i>) -> bool {
    &&& 0 <= dt <= DT_MAX
    &&& boids_in_range(w.boids)
    &&& (attract matches Some(p) ==> v_bounded(p, POS_MAX as int))
}

/// Which error a rejected tick reports: running time backwards has its own
/// name; every other rejection is a numeric range.
pub open spec fn tick_error(dt: int) -> SimError {
    if dt < 0 {
        SimError::NegativeDelta
    } else {
        SimError::OutOfRange
    }
}

/// The velocity-update pass over a snapshot of the flock: recompute every
/// boid's velocity from the five steering forces, clamped to the speed limit.
pub fn update_velocities(
    boids: &Vec<Boid>,
    width: i64,
    height: i64,
    cfg: &Config,
    attraction: Option<Vec2>,
) -> (r: Vec<Boid>)
    requires
        wf_config(cfg@),
        wf_arena(width as int, height as int),
        boids@.len() <= BOIDS_MAX,
        boids_in_range(boids_model(boids@)),
        attraction matches Some(p) ==> v_bounded(p@, POS_MAX as int),
    ensures
        boids_model(r@) == velocities_pass(boids_model(boids@), width as int, height as int, cfg@,
            opt_model(attraction)),
        r@.len() == boids@.len(),
        boids_in_range(boids_model(r@)),
        forall|k: int|
            0 <= k < r@.len() ==> len_of(#[trigger] boids_model(r@)[k].vel) <= cfg@.max_speed,
{
    let ghost bm = boids_model(boids@);
    let ghost goal = velocities_pass(bm, width as int, height as int, cfg@, opt_model(attraction));
    let n = boids.len();
    let mut out: Vec<Boid> = Vec::new();
    let mut i: usize = 0;
    while i < n
        invariant
            wf_config(cfg@),
            wf_arena(width as int, height as int),
            boids@.len() == n <= BOIDS_MAX,
            boids_in_range(bm),
            bm == boids_model(boids@),
            goal == velocities_pass(bm, width as int, height as int, cfg@, opt_model(attraction)),
            attraction matches Some(p) ==> v_bounded(p@, POS_MAX as int),
            i <= n,
            out@.len() == i,
            forall|k: int| 0 <= k < i ==> #[trigger] boids_model(out@)[k] == goal[k],
            forall|k: int|
                0 <= k < i ==> boid_in_range(#[trigger] boids_model(out@)[k]) && len_of(
                    boids_model(out@)[k].vel) <= cfg@.max_speed,
        decreases n - i,
    {
        proof {
            assert(bm[i as int] == boids@[i as int]@);
            assert(boid_in_range(bm[i as int]));
        }
        let me = boids[i];
        let f = flock_forces(boids, i, cfg);
        let av = avoidance_force(me.position, width, height, cfg);
        let at = attraction_force(me.position, attraction, cfg);
        let sum = f.0.add(f.1).add(f.2).add(av).add(at);
        let newv = sum.clamp_length_max(cfg.max_speed);
        proof {
            crate::vec2::lemma_clamp_len(sum@, cfg@.max_speed);
        }
        let b = Boid { position: me.position, velocity: newv, radius: me.radius };
        let ghost prev = out@;
        out.push(b);
        proof {
            assert(boids_model(out@)[i as int] == b@);
            assert(forall|k: int|
                0 <= k < i ==> #[trigger] boids_model(out@)[k] == boids_model(prev)[k]);
            assert(boids_model(out@)[i as int] == goal[i as int]);
        }
        i = i + 1;
    }
    proof {
        assert(boids_model(out@) =~= goal);
    }
    out
}

/// The movement pass: integrate every position by `pos += vel * dt`; run
/// after every velocity is written, so integration never mixes pre- and
/// post-update state.
pub fn apply_velocity(boids: &Vec<Boid>, dt: i64) -> (r: Vec<Boid>)
    requires
        0 <= dt <= DT_MAX,
        boids_in_range(boids_model(boids@)),
    ensures
        boids_model(r@) == move_pass(boids_model(boids@), dt as int),
        r@.len() == boids@.len(),
        forall|k: int|
            0 <= k < r@.len() ==> {
                let b = #[trigger] boids_model(r@)[k];
                &&& v_bounded(b.pos, 0x10_0000_0000_0000)
                &&& b.vel == boids_model(boids@)[k].vel
                &&& b.radius == boids_model(boids@)[k].radius
            },
{
    let ghost bm = boids_model(boids@);
    let ghost goal = move_pass(bm, dt as int);
    let n = boids.len();
    let mut out: Vec<Boid> = Vec::new();
    let mut i: usize = 0;
    while i < n
        invariant
            0 <= dt <= DT_MAX,
            boids@.len() == n,
            boids_in_range(bm),
            bm == boids_model(boids@),
            goal == move_pass(bm, dt as int),
            i <= n,
            out@.len() == i,
            forall|k: int| 0 <= k < i ==> #[trigger] boids_model(out@)[k] == goal[k],
            forall|k: int|
                0 <= k < i ==> v_bounded(#[trigger] boids_model(out@)[k].pos, 0x10_0000_0000_0000),
        decreases n - i,
    {
        proof {
            assert(bm[i as int] == boids@[i as int]@);
            assert(boid_in_range(bm[i as int]));
            assert(abs_i(bm[i as int].vel.x * dt) <= 1000 * 0x8_0000_0000_0000
                && abs_i(bm[i as int].vel.y * dt) <= 1000 * 0x8_0000_0000_0000
                && abs_i(bm[i as int].vel.x * dt) <= 1000 * 0x4000_0000_0000_0000
                && abs_i(bm[i as int].vel.y * dt) <= 1000 * 0x4000_0000_0000_0000)
                by (nonlinear_arith)
                requires
                    -POS_MAX <= bm[i as int].vel.x <= POS_MAX,
                    -POS_MAX <= bm[i as int].vel.y <= POS_MAX,
                    0 <= dt <= DT_MAX,
                    POS_MAX == 0x4000_0000,
                    DT_MAX == 0x10_0000,
            ;
            lemma_div_t_mul_le(bm[i as int].vel.x * dt, 1000, 0x8_0000_0000_0000);
            lemma_div_t_mul_le(bm[i as int].vel.y * dt, 1000, 0x8_0000_0000_0000);
        }
        let me = boids[i];
        let dx = crate::vec2::muldiv(me.velocity.x, dt, SCALE);
        let dy = crate::vec2::muldiv(me.velocity.y, dt, SCALE);
        let b = Boid {
            position: Vec2 { x: me.position.x + dx, y: me.position.y + dy },
            velocity: me.velocity,
            radius: me.radius,
        };
        let ghost prev = out@;
        out.push(b);
        proof {
            assert(boids_model(out@)[i as int] == b@);
            assert(forall|k: int|
                0 <= k < i ==> #[trigger] boids_model(out@)[k] == boids_model(prev)[k]);
            assert(boids_model(out@)[i as int] == goal[i as int]);
        }
        i = i + 1;
    }
    proof {
        assert(boids_model(out@) =~= goal);
    }
    out
}

/// The collision pass: test every boid against every border, in border order,
/// and reflect the offending velocity component of each hit; run after
/// movement, so the corrections act on the next tick.
pub fn check_for_collisions(boids: &Vec<Boid>, borders: &Vec<Aabb>) -> (r: Vec<Boid>)
    requires
        forall|k: int|
            0 <= k < boids@.len() ==> {
                let b = #[trigger] boids_model(boids@)[k];
                &&& v_bounded(b.pos, 0x2000_0000_0000_0000)
                &&& v_bounded(b.vel, POS_MAX as int)
                &&& 0 <= b.radius <= CFG_MAX
            },
        forall|k: int|
            0 <= k < borders@.len() ==> aabb_in_range(#[trigger] borders_model(borders@)[k]),
    ensures
        boids_model(r@) == collisions_pass(boids_model(boids@), borders_model(borders@)),
        r@.len() == boids@.len(),
{
    let ghost bm = boids_model(boids@);
    let ghost bo = borders_model(borders@);
    let ghost goal = collisions_pass(bm, bo);
    let n = boids.len();
    let n_borders = borders.len();
    let mut out: Vec<Boid> = Vec::new();
    let mut i: usize = 0;
    while i < n
        invariant
            boids@.len() == n,
            borders@.len() == n_borders,
            bm == boids_model(boids@),
            bo == borders_model(borders@),
            goal == collisions_pass(bm, bo),
            forall|k: int|
                0 <= k < n ==> {
                    let b = #[trigger] bm[k];
                    &&& v_bounded(b.pos, 0x2000_0000_0000_0000)
                    &&& v_bounded(b.vel, POS_MAX as int)
                    &&& 0 <= b.radius <= CFG_MAX
                },
            forall|k: int| 0 <= k < n_borders ==> aabb_in_range(#[trigger] bo[k]),
            i <= n,
            out@.len() == i,
            forall|k: int| 0 <= k < i ==> #[trigger] boids_model(out@)[k] == goal[k],
        decreases n - i,
    {
        proof {
            assert(bm[i as int] == boids@[i as int]@);
        }
        let me = boids[i];
        let mut vel = me.velocity;
        let mut b: usize = 0;
        while b < n_borders
            invariant
                boids@.len() == n,
                borders@.len() == n_borders,
                bm == boids_model(boids@),
                bo == borders_model(borders@),
                i < n,
                me == boids@[i as int],
                v_bounded(bm[i as int].pos, 0x2000_0000_0000_0000),
                v_bounded(bm[i as int].vel, POS_MAX as int),
                0 <= bm[i as int].radius <= CFG_MAX,
                forall|k: int| 0 <= k < n_borders ==> aabb_in_range(#[trigger] bo[k]),
                b <= n_borders,
                vel@ == resolve_spec(bm[i as int].pos, bm[i as int].radius, bm[i as int].vel, bo,
                    b as int),
            decreases n_borders - b,
        {
            proof {
                assert(bo[b as int] == borders@[b as int]@);
                crate::geom::lemma_resolve_len(bm[i as int].pos, bm[i as int].radius,
                    bm[i as int].vel, bo, b as int);
                crate::vec2::lemma_component_le_len(bm[i as int].vel);
                crate::vec2::lemma_component_le_len(vel@);
                crate::vec2::lemma_len_le_bound(bm[i as int].vel, POS_MAX as int);
            }
            let border = borders[b];
            let hit = boid_collision(me.position, me.radius, &border);
            match hit {
                Option::None => {},
                Option::Some(side) => {
                    vel = reflect(vel, side);
                },
            }
            b = b + 1;
        }
        let nb = Boid { position: me.position, velocity: vel, radius: me.radius };
        let ghost prev = out@;
        out.push(nb);
        proof {
            assert(boids_model(out@)[i as int] == nb@);
            assert(forall|k: int|
                0 <= k < i ==> #[trigger] boids_model(out@)[k] == boids_model(prev)[k]);
            assert(boids_model(out@)[i as int] == goal[i as int]);
        }
        i = i + 1;
    }
    proof {
        assert(boids_model(out@) =~= goal);
    }
    out
}

impl WorldState {
    /// Advance the simulation by one step of `dt` fixed-point seconds, with
    /// this tick's optional attraction-point sample. A rejected call (time
    /// running backwards, or state beyond the numeric range) reports why and
    /// applies nothing; an accepted call applies the whole of `spec_tick`.
    pub fn tick(&mut self, dt: i64, attraction: Option<Vec2>) -> (r: Result<(), SimError>)
        requires
            old(self).wf(),
        ensures
            final(self).wf(),
            match r {
                Ok(()) => {
                    &&& tick_accepts(old(self)@, dt as int, opt_model(attraction))
                    &&& final(self)@ == spec_tick(old(self)@, dt as int, opt_model(attraction))
                },
                Err(e) => {
                    &&& final(self)@ == old(self)@
                    &&& !tick_accepts(old(self)@, dt as int, opt_model(attraction))
                    &&& e == tick_error(dt as int)
                },
            },
    {
        if dt < 0 {
            return Err(SimError::NegativeDelta);
        }
        if dt > DT_MAX {
            return Err(SimError::OutOfRange);
        }
        if !boids_in_range_exec(self.boids_ref()) {
            return Err(SimError::OutOfRange);
        }
        match attraction {
            Option::None => {},
            Option::Some(p) => {
                if p.x < -POS_MAX || p.x > POS_MAX || p.y < -POS_MAX || p.y > POS_MAX {
                    return Err(SimError::OutOfRange);
                }
            },
        }
        let cfg = self.config();
        let width = self.width();
        let height = self.height();
        let snapshot = copy_boids(self.boids_ref());
        let v1 = update_velocities(&snapshot, width, height, &cfg, attraction);
        let v2 = apply_velocity(&v1, dt);
        let borders_ref = self.borders();
        proof {
            lemma_borders_in_range(old(self)@.width, old(self)@.height,
                old(self)@.config.border_thickness);
            let bs = borders_spec(old(self)@.width, old(self)@.height,
                old(self)@.config.border_thickness);
            assert(borders_model(borders_ref@) == bs);
            assert(aabb_in_range(bs[0]) && aabb_in_range(bs[1]) && aabb_in_range(bs[2])
                && aabb_in_range(bs[3]));
            assert(bs.len() == 4);
            assert(borders_model(borders_ref@).len() == borders_ref@.len());
            assert(borders_ref@.len() == 4);
            assert forall|k: int| 0 <= k < borders_ref@.len() implies aabb_in_range(
                #[trigger] borders_model(borders_ref@)[k]) by {
                assert(borders_model(borders_ref@)[k] == bs[k]);
            }
        }
        let v3 = check_for_collisions(&v2, borders_ref);
        proof {
            assert(boids_model(v3@) == tick_boids_spec(self@, dt as int, opt_model(attraction)));
        }
        self.set_boids(v3);
        Ok(())
    }
}

} // verus!

use vstd::prelude::*;
use crate::math::{div_t, lemma_div_t_neg, lemma_div_t_zero, lemma_sqrt_square};
use crate::vec2::{Vec2i, SCALE, v_zero, v_add, v_sub, v_neg, norm2, len_of, normalize_spec,
    mul_fp_spec, lemma_clamp_len, lemma_len_neg, lemma_component_le_len, lemma_force_weight,
    lemma_len_triangle, lemma_len_zero};
use crate::geom::{AabbM, CollisionSide, boid_collision_spec, resolve_one_spec,
    resolve_spec, lemma_resolve_len, lemma_resolve_zero};
use crate::boid::BoidM;
use crate::config::{ConfigM, wf_config};
use crate::flocking::{is_nbr, nbr_count, sep_pair, flock_forces_spec, align_sum, coh_sum,
    sep_sum};
use crate::forces::{edge_push, avoidance_raw, avoidance_spec, attraction_spec};
use crate::tick::{spec_tick, velocities_pass, move_pass, collisions_pass, new_velocity_spec,
    integrate_spec};
use crate::world::WorldM;

verus! {

/// After any tick, every boid's speed is at most the configured maximum: the
/// integrator clamps the combined steering force, and a collision reflection
/// only ever negates one velocity axis, which keeps the length.
pub proof fn lemma_speed_limit_after_tick(w: WorldM, dt: int, attract: Option<Vec2i>, i: int)
    requires
        0 <= w.config.max_speed,
        0 <= i < w.boids.len(),
    ensures
        len_of(spec_tick(w, dt, attract).boids[i].vel) <= w.config.max_speed,
{
    let vp = velocities_pass(w.boids, w.width, w.height, w.config, attract);
    let mp = move_pass(vp, dt);
    let cp = collisions_pass(mp, w.borders);
    assert(vp[i].vel == new_velocity_spec(w.boids, i, w.width, w.height, w.config, attract));
    lemma_clamp_len(
        {
            let f = flock_forces_spec(w.boids, i, w.config);
            let av = avoidance_spec(w.boids[i].pos, w.width, w.height, w.config);
            let at = crate::forces::attraction_spec(w.boids[i].pos, attract, w.config);
            v_add(v_add(v_add(v_add(f.0, f.1), f.2), av), at)
        },
        w.config.max_speed,
    );
    assert(len_of(mp[i].vel) <= w.config.max_speed);
    lemma_resolve_len(mp[i].pos, mp[i].radius, mp[i].vel, w.borders, w.borders.len() as int);
    assert(cp[i].vel == resolve_spec(mp[i].pos, mp[i].radius, mp[i].vel, w.borders,
        w.borders.len() as int));
}

/// Each steering force is the zero vector or has the magnitude of its weight
/// up to a rounding margin below half a percent, so before clamping their sum
/// is no longer than the sum of the five weights plus four rounding steps.
pub proof fn lemma_preclamp_force_sum(
    boids: Seq<BoidM>,
    i: int,
    width: int,
    height: int,
    cfg: ConfigM,
    attract: Option<Vec2i>,
)
    requires
        wf_config(cfg),
    ensures
        len_of(flock_forces_spec(boids, i, cfg).0) <= cfg.align_weight,
        len_of(flock_forces_spec(boids, i, cfg).1) <= cfg.cohesion_weight,
        len_of(flock_forces_spec(boids, i, cfg).2) <= cfg.separation_weight,
        len_of(avoidance_spec(boids[i].pos, width, height, cfg)) <= cfg.avoidance_weight,
        len_of(attraction_spec(boids[i].pos, attract, cfg)) <= cfg.attraction_weight,
        len_of(
            v_add(
                v_add(
                    v_add(
                        v_add(flock_forces_spec(boids, i, cfg).0, flock_forces_spec(boids, i, cfg).1),
                        flock_forces_spec(boids, i, cfg).2,
                    ),
                    avoidance_spec(boids[i].pos, width, height, cfg),
                ),
                attraction_spec(boids[i].pos, attract, cfg),
            ),
        ) <= cfg.align_weight + cfg.cohesion_weight + cfg.separation_weight + cfg.avoidance_weight
            + cfg.attraction_weight + 4,
{
    lemma_len_zero();
    let f = flock_forces_spec(boids, i, cfg);
    let view = cfg.view_radius;
    let k = boids.len() as int;
    if nbr_count(boids, i, view, k) == 0 {
    } else {
        let n = nbr_count(boids, i, view, k);
        lemma_force_weight(crate::flocking::v_div(align_sum(boids, i, view, k), n),
            cfg.align_weight);
        lemma_force_weight(v_sub(crate::flocking::v_div(coh_sum(boids, i, view, k), n),
            boids[i].pos), cfg.cohesion_weight);
        lemma_force_weight(sep_sum(boids, i, view, k), cfg.separation_weight);
    }
    lemma_force_weight(avoidance_raw(boids[i].pos, width, height, cfg.avoidance_distance),
        cfg.avoidance_weight);
    let at = attraction_spec(boids[i].pos, attract, cfg);
    match attract {
        Option::None => {},
        Option::Some(p) => {
            let dir = v_sub(p, boids[i].pos);
            if len_of(dir) < cfg.capture_distance {
                lemma_force_weight(dir, cfg.attraction_weight);
            }
        },
    }
    let av = avoidance_spec(boids[i].pos, width, height, cfg);
    lemma_len_triangle(f.0, f.1);
    lemma_len_triangle(v_add(f.0, f.1), f.2);
    lemma_len_triangle(v_add(v_add(f.0, f.1), f.2), av);
    lemma_len_triangle(v_add(v_add(v_add(f.0, f.1), f.2), av), at);
}

/// Among the first `k` boids, no neighbors means a zero count.
proof fn lemma_count_zero(boids: Seq<BoidM>, i: int, view: int, k: int)
    requires
        forall|j: int| 0 <= j < k ==> !is_nbr(boids, i, j, view),
    ensures
        nbr_count(boids, i, view, k) == 0,
    decreases k,
{
    if k > 0 {
        lemma_count_zero(boids, i, view, k - 1);
    }
}

/// A boid with no neighbor within the view radius receives zero alignment,
/// cohesion and separation; no fallback force is substituted.
pub proof fn lemma_no_neighbors_zero_forces(boids: Seq<BoidM>, i: int, cfg: ConfigM)
    requires
        forall|j: int| 0 <= j < boids.len() ==> !is_nbr(boids, i, j, cfg.view_radius),
    ensures
        flock_forces_spec(boids, i, cfg) == (v_zero(), v_zero(), v_zero()),
{
    lemma_count_zero(boids, i, cfg.view_radius, boids.len() as int);
}

/// Separation is anti-symmetric: the push of a boid at `pb` on one at `pa` is
/// exactly the negation of the push of `pa` on `pb`.
pub proof fn lemma_separation_antisymmetric(pa: Vec2i, pb: Vec2i)
    requires
        pa != pb,
    ensures
        sep_pair(pa, pb) == v_neg(sep_pair(pb, pa)),
{
    let d1 = v_sub(pb, pa);
    let d2 = v_sub(pa, pb);
    assert(d1 == v_neg(d2));
    lemma_len_neg(d2);
    let l = len_of(d1);
    lemma_component_le_len(d1);
    assert(l >= 1);
    assert(l * l >= 1) by (nonlinear_arith)
        requires
            l >= 1,
    ;
    assert(d1.x * SCALE * SCALE == -(d2.x * SCALE * SCALE)
        && d1.y * SCALE * SCALE == -(d2.y * SCALE * SCALE)) by (nonlinear_arith)
        requires
            d1.x == -d2.x,
            d1.y == -d2.y,
    ;
    lemma_div_t_neg(d2.x * SCALE * SCALE, l * l);
    lemma_div_t_neg(d2.y * SCALE * SCALE, l * l);
}

/// Separation along an axis: with the neighbor at distance `d` straight to
/// the right, the push is straight to the left with magnitude `SCALE^2 / d`
/// (the inverse-distance weighting, in fixed point).
pub proof fn lemma_separation_axis(pa: Vec2i, pb: Vec2i, d: int)
    requires
        1 <= d,
        pb.x == pa.x + d,
        pb.y == pa.y,
    ensures
        sep_pair(pa, pb).y == 0,
        sep_pair(pa, pb).x == -div_t(SCALE as int * SCALE as int, d),
        d <= SCALE as int * SCALE as int ==> sep_pair(pa, pb).x < 0,
{
    let diff = v_sub(pb, pa);
    assert(diff.x == d && diff.y == 0);
    assert(norm2(diff) == d * d) by (nonlinear_arith)
        requires
            diff.x == d,
            diff.y == 0,
            norm2(diff) == diff.x * diff.x + diff.y * diff.y,
    ;
    lemma_sqrt_square(d);
    assert(len_of(diff) == d);
    assert(d * d >= 1) by (nonlinear_arith)
        requires
            d >= 1,
    ;
    lemma_div_t_zero(d * d);
    // (d * S^2) / (d * d) == S^2 / d
    let s2 = SCALE as int * SCALE as int;
    vstd::arithmetic::div_mod::lemma_div_denominator(d * s2, d, d);
    vstd::arithmetic::div_mod::lemma_div_multiples_vanish(s2, d);
    assert(diff.x * SCALE * SCALE == d * s2) by (nonlinear_arith)
        requires
            diff.x == d,
            s2 == SCALE as int * SCALE as int,
    ;
    assert(div_t(d * s2, d * d) == div_t(s2, d));
    if d <= s2 {
        vstd::arithmetic::div_mod::lemma_div_non_zero(s2, d);
    }
}

/// A boid exactly the avoidance distance from an edge (or farther) gets no
/// push from that edge.
pub proof fn lemma_edge_push_at_threshold(dist: int, d_avoid: int)
    requires
        d_avoid <= dist,
    ensures
        edge_push(dist, d_avoid) == 0,
{
}

/// A boid at distance zero from an edge gets that edge's maximal raw push,
/// one full unit.
pub proof fn lemma_edge_push_at_edge(d_avoid: int)
    requires
        1 <= d_avoid,
    ensures
        edge_push(0, d_avoid) == SCALE as int,
{
    lemma_div_t_zero(d_avoid);
}

/// A boid right on the left arena edge, far enough from the other three
/// edges, receives exactly the weight-scaled maximal avoidance push, straight
/// back into the arena.
pub proof fn lemma_avoidance_max_at_left_edge(pos: Vec2i, width: int, height: int, cfg: ConfigM)
    requires
        1 <= cfg.avoidance_distance,
        0 <= cfg.avoidance_weight,
        pos.x == -div_t(width, 2),
        div_t(width, 2) - pos.x >= cfg.avoidance_distance,
        pos.y - (-div_t(height, 2)) >= cfg.avoidance_distance,
        div_t(height, 2) - pos.y >= cfg.avoidance_distance,
    ensures
        avoidance_spec(pos, width, height, cfg) == (Vec2i { x: cfg.avoidance_weight, y: 0 }),
{
    let d = cfg.avoidance_distance;
    lemma_edge_push_at_edge(d);
    let raw = avoidance_raw(pos, width, height, d);
    assert(raw == (Vec2i { x: SCALE as int, y: 0 }));
    let s = SCALE as int;
    let p = crate::vec2::PRESCALE as int;
    let b = crate::vec2::v_scale(raw, p);
    assert(b == (Vec2i { x: s * p, y: 0 }));
    assert(norm2(b) == (s * p) * (s * p) && 0 < s * p) by (nonlinear_arith)
        requires
            b.x == s * p,
            b.y == 0,
            norm2(b) == b.x * b.x + b.y * b.y,
            s == 1000,
            p == 0x10_0000,
    ;
    lemma_sqrt_square(s * p);
    assert(len_of(b) == s * p);
    assert(div_t(b.x * s, len_of(b)) == s && div_t(b.y * s, len_of(b)) == 0) by {
        assert(b.x * s == (s * p) * s) by (nonlinear_arith)
            requires
                b.x == s * p,
        ;
        assert(((s * p) * s) / (s * p) == s) by {
            vstd::arithmetic::div_mod::lemma_div_multiples_vanish(s, s * p);
        }
        assert((s * p) * s >= 0) by (nonlinear_arith)
            requires
                s == 1000,
                p == 0x10_0000,
        ;
        lemma_div_t_zero(s * p);
    }
    let nrm = normalize_spec(raw);
    assert(nrm == (Vec2i { x: s, y: 0 }));
    vstd::arithmetic::div_mod::lemma_div_multiples_vanish(cfg.avoidance_weight, s);
    assert(div_t(nrm.x * cfg.avoidance_weight, s) == cfg.avoidance_weight) by {
        assert(nrm.x * cfg.avoidance_weight == s * cfg.avoidance_weight) by (nonlinear_arith)
            requires
                nrm.x == s,
        ;
    }
    lemma_div_t_zero(s);
}

/// A boid at least the avoidance distance from all four edges receives zero
/// avoidance force.
pub proof fn lemma_avoidance_zero_inside(pos: Vec2i, width: int, height: int, cfg: ConfigM)
    requires
        1 <= cfg.avoidance_distance,
        0 <= cfg.avoidance_weight,
        pos.x - (-div_t(width, 2)) >= cfg.avoidance_distance,
        div_t(width, 2) - pos.x >= cfg.avoidance_distance,
        pos.y - (-div_t(height, 2)) >= cfg.avoidance_distance,
        div_t(height, 2) - pos.y >= cfg.avoidance_distance,
    ensures
        avoidance_spec(pos, width, height, cfg) == v_zero(),
{
    let raw = avoidance_raw(pos, width, height, cfg.avoidance_distance);
    assert(raw == v_zero());
    let nrm = normalize_spec(raw);
    assert(nrm == v_zero());
    lemma_div_t_zero(SCALE as int);
    assert(nrm.x * cfg.avoidance_weight == 0 && nrm.y * cfg.avoidance_weight == 0)
        by (nonlinear_arith)
        requires
            nrm.x == 0,
            nrm.y == 0,
    ;
    assert(mul_fp_spec(nrm, cfg.avoidance_weight) == v_zero());
}

/// Collision reflection flips only the axis of the resolved side, and only
/// while the velocity still opposes that side; a boid already moving away is
/// left unchanged, and a boid not touching the border is left unchanged.
pub proof fn lemma_reflection(pos: Vec2i, radius: int, vel: Vec2i, b: AabbM)
    ensures
        boid_collision_spec(pos, radius, b) is None ==> resolve_one_spec(pos, radius, vel, b)
            == vel,
        boid_collision_spec(pos, radius, b) == Some(CollisionSide::Left) ==> resolve_one_spec(
            pos, radius, vel, b) == (if vel.x > 0 {
            Vec2i { x: -vel.x, y: vel.y }
        } else {
            vel
        }),
        boid_collision_spec(pos, radius, b) == Some(CollisionSide::Right) ==> resolve_one_spec(
            pos, radius, vel, b) == (if vel.x < 0 {
            Vec2i { x: -vel.x, y: vel.y }
        } else {
            vel
        }),
        boid_collision_spec(pos, radius, b) == Some(CollisionSide::Top) ==> resolve_one_spec(
            pos, radius, vel, b) == (if vel.y < 0 {
            Vec2i { x: vel.x, y: -vel.y }
        } else {
            vel
        }),
        boid_collision_spec(pos, radius, b) == Some(CollisionSide::Bottom) ==> resolve_one_spec(
            pos, radius, vel, b) == (if vel.y > 0 {
            Vec2i { x: vel.x, y: -vel.y }
        } else {
            vel
        }),
        (boid_collision_spec(pos, radius, b) == Some(CollisionSide::Left)
            || boid_collision_spec(pos, radius, b) == Some(CollisionSide::Right))
            ==> resolve_one_spec(pos, radius, vel, b).y == vel.y,
        (boid_collision_spec(pos, radius, b) == Some(CollisionSide::Top)
            || boid_collision_spec(pos, radius, b) == Some(CollisionSide::Bottom))
            ==> resolve_one_spec(pos, radius, vel, b).x == vel.x,
{
}

/// The flock's size is invariant for the run: no tick creates or destroys a
/// boid.
pub proof fn lemma_tick_preserves_flock_size(w: WorldM, dt: int, attract: Option<Vec2i>)
    ensures
        spec_tick(w, dt, attract).boids.len() == w.boids.len(),
{
}

/// A flock at rest with no force source is a fixed point of the tick: with
/// every boid's velocity zero, no boid seeing a neighbor, every boid at least
/// the avoidance distance inside the edges, and no attraction sample, a tick
/// of any accepted length changes nothing at all.
pub proof fn lemma_resting_isolated_flock_is_fixed(w: WorldM, dt: int)
    requires
        0 <= w.config.max_speed,
        1 <= w.config.avoidance_distance,
        0 <= w.config.avoidance_weight,
        forall|i: int| 0 <= i < w.boids.len() ==> #[trigger] w.boids[i].vel == v_zero(),
        forall|i: int, j: int|
            0 <= i < w.boids.len() && 0 <= j < w.boids.len() ==> !is_nbr(w.boids, i, j,
                w.config.view_radius),
        forall|i: int|
            0 <= i < w.boids.len() ==> {
                let p = (#[trigger] w.boids[i]).pos;
                &&& p.x - (-div_t(w.width, 2)) >= w.config.avoidance_distance
                &&& div_t(w.width, 2) - p.x >= w.config.avoidance_distance
                &&& p.y - (-div_t(w.height, 2)) >= w.config.avoidance_distance
                &&& div_t(w.height, 2) - p.y >= w.config.avoidance_distance
            },
    ensures
        spec_tick(w, dt, None) == w,
{
    let vp = velocities_pass(w.boids, w.width, w.height, w.config, None);
    let mp = move_pass(vp, dt);
    let cp = collisions_pass(mp, w.borders);
    assert(len_of(v_zero()) == 0) by {
        assert(norm2(v_zero()) == 0);
    }
    assert forall|i: int| 0 <= i < w.boids.len() implies #[trigger] cp[i] == w.boids[i] by {
        lemma_no_neighbors_zero_forces(w.boids, i, w.config);
        lemma_avoidance_zero_inside(w.boids[i].pos, w.width, w.height, w.config);
        assert(new_velocity_spec(w.boids, i, w.width, w.height, w.config, None) == v_zero());
        assert(w.boids[i].vel == v_zero());
        assert(vp[i] == w.boids[i]);
        assert(v_zero().x * dt == 0 && v_zero().y * dt == 0) by (nonlinear_arith);
        lemma_div_t_zero(SCALE as int);
        assert(integrate_spec(w.boids[i].pos, v_zero(), dt) == w.boids[i].pos);
        assert(mp[i] == w.boids[i]);
        lemma_resolve_zero(mp[i].pos, mp[i].radius, w.borders, w.borders.len() as int);
    }
    assert(cp =~= w.boids);
}

/// Repeated ticks of a world.
pub open spec fn iter_tick(w: WorldM, dt: int, attract: Option<Vec2i>, n: int) -> WorldM
    decreases n,
{
    if n <= 0 {
        w
    } else {
        spec_tick(iter_tick(w, dt, attract, n - 1), dt, attract)
    }
}

/// A zero time step moves nothing: one tick leaves every position where it
/// was (velocities are still re-derived from the steering forces).
pub proof fn lemma_zero_dt_positions(w: WorldM, attract: Option<Vec2i>, i: int)
    requires
        0 <= i < w.boids.len(),
    ensures
        spec_tick(w, 0, attract).boids.len() == w.boids.len(),
        spec_tick(w, 0, attract).boids[i].pos == w.boids[i].pos,
        spec_tick(w, 0, attract).boids[i].radius == w.boids[i].radius,
{
    let vp = velocities_pass(w.boids, w.width, w.height, w.config, attract);
    let mp = move_pass(vp, 0);
    assert(vp[i].vel.x * 0 == 0 && vp[i].vel.y * 0 == 0) by (nonlinear_arith);
    lemma_div_t_zero(SCALE as int);
    assert(mp[i].pos == integrate_spec(vp[i].pos, vp[i].vel, 0));
    assert(mp[i].pos == w.boids[i].pos);
}

/// Any number of zero-time-step ticks leaves every position where it was.
pub proof fn lemma_zero_dt_positions_n(w: WorldM, attract: Option<Vec2i>, n: int, i: int)
    requires
        0 <= i < w.boids.len(),
        0 <= n,
    ensures
        iter_tick(w, 0, attract, n).boids.len() == w.boids.len(),
        iter_tick(w, 0, attract, n).boids[i].pos == w.boids[i].pos,
        iter_tick(w, 0, attract, n).boids[i].radius == w.boids[i].radius,
    decreases n,
{
    if n > 0 {
        lemma_zero_dt_positions_n(w, attract, n - 1, i);
        lemma_zero_dt_positions(iter_tick(w, 0, attract, n - 1), attract, i);
    }
}

} // verus!

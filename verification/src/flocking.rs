use vstd::prelude::*;
use crate::math::{abs_i, div_t, lemma_div_t_mul_le};
use crate::vec2::{Vec2, Vec2i, SCALE, v_zero, v_add, v_sub, v_bounded, len_of,
    normalize_spec, mul_fp_spec, lemma_component_le_len, lemma_force_weight, lemma_len_zero};
use crate::boid::{Boid, BoidM, boids_model, boids_in_range};
use crate::config::{Config, ConfigM, wf_config, POS_MAX, BOIDS_MAX};

verus! {

/// Component-wise truncating division of a vector by `n`.
pub open spec fn v_div(a: Vec2i, n: int) -> Vec2i {
    Vec2i { x: div_t(a.x, n), y: div_t(a.y, n) }
}

/// From boid `i` to boid `j`.
pub open spec fn diff_of(boids: Seq<BoidM>, i: int, j: int) -> Vec2i {
    v_sub(boids[j].pos, boids[i].pos)
}

/// The distance between boids `i` and `j`.
pub open spec fn dist_of(boids: Seq<BoidM>, i: int, j: int) -> int {
    len_of(diff_of(boids, i, j))
}

/// Boid `j` is a neighbor of boid `i`: another boid, not at the very same
/// spot, strictly within the view radius.
pub open spec fn is_nbr(boids: Seq<BoidM>, i: int, j: int, view: int) -> bool {
    j != i && 0 < dist_of(boids, i, j) < view
}

/// How many of the first `k` boids are neighbors of boid `i`.
pub open spec fn nbr_count(boids: Seq<BoidM>, i: int, view: int, k: int) -> int
    decreases k,
{
    if k <= 0 {
        0
    } else {
        nbr_count(boids, i, view, k - 1) + if is_nbr(boids, i, k - 1, view) {
            1int
        } else {
            0int
        }
    }
}

/// The summed velocities of boid `i`'s neighbors among the first `k` boids.
pub open spec fn align_sum(boids: Seq<BoidM>, i: int, view: int, k: int) -> Vec2i
    decreases k,
{
    if k <= 0 {
        v_zero()
    } else {
        v_add(align_sum(boids, i, view, k - 1), if is_nbr(boids, i, k - 1, view) {
            boids[k - 1].vel
        } else {
            v_zero()
        })
    }
}

/// The summed positions of boid `i`'s neighbors among the first `k` boids.
pub open spec fn coh_sum(boids: Seq<BoidM>, i: int, view: int, k: int) -> Vec2i
    decreases k,
{
    if k <= 0 {
        v_zero()
    } else {
        v_add(coh_sum(boids, i, view, k - 1), if is_nbr(boids, i, k - 1, view) {
            boids[k - 1].pos
        } else {
            v_zero()
        })
    }
}

/// One neighbor's separation push on a boid at `pi`: away from the neighbor
/// at `pj`, weighted by the inverse of the distance (the `SCALE * SCALE`
/// factor carries `diff / dist^2` into fixed point).
pub open spec fn sep_pair(pi: Vec2i, pj: Vec2i) -> Vec2i {
    let diff = v_sub(pj, pi);
    let d = len_of(diff);
    Vec2i {
        x: -div_t(diff.x * SCALE * SCALE, d * d),
        y: -div_t(diff.y * SCALE * SCALE, d * d),
    }
}

/// The summed separation pushes from boid `i`'s neighbors among the first `k`
/// boids.
pub open spec fn sep_sum(boids: Seq<BoidM>, i: int, view: int, k: int) -> Vec2i
    decreases k,
{
    if k <= 0 {
        v_zero()
    } else {
        v_add(sep_sum(boids, i, view, k - 1), if is_nbr(boids, i, k - 1, view) {
            sep_pair(boids[i].pos, boids[k - 1].pos)
        } else {
            v_zero()
        })
    }
}

/// The three flocking forces on boid `i`: alignment, cohesion and separation,
/// each averaged/aggregated over the neighbor set, normalized and weighted.
/// With no neighbors all three are zero.
pub open spec fn flock_forces_spec(boids: Seq<BoidM>, i: int, cfg: ConfigM) -> (Vec2i, Vec2i, Vec2i) {
    let k = boids.len() as int;
    let view = cfg.view_radius;
    let n = nbr_count(boids, i, view, k);
    if n == 0 {
        (v_zero(), v_zero(), v_zero())
    } else {
        (
            mul_fp_spec(normalize_spec(v_div(align_sum(boids, i, view, k), n)), cfg.align_weight),
            mul_fp_spec(
                normalize_spec(v_sub(v_div(coh_sum(boids, i, view, k), n), boids[i].pos)),
                cfg.cohesion_weight,
            ),
            mul_fp_spec(normalize_spec(sep_sum(boids, i, view, k)), cfg.separation_weight),
        )
    }
}

/// A separation push's coordinates never exceed `SCALE * SCALE`.
proof fn lemma_sep_pair_bounded(pi: Vec2i, pj: Vec2i)
    requires
        len_of(v_sub(pj, pi)) >= 1,
    ensures
        v_bounded(sep_pair(pi, pj), SCALE as int * SCALE as int),
{
    let diff = v_sub(pj, pi);
    let d = len_of(diff);
    lemma_component_le_len(diff);
    assert(abs_i(diff.x * SCALE * SCALE) <= (d * d) * 1_000_000
        && abs_i(diff.y * SCALE * SCALE) <= (d * d) * 1_000_000) by (nonlinear_arith)
        requires
            abs_i(diff.x) <= d,
            abs_i(diff.y) <= d,
            1 <= d,
            SCALE == 1000,
    ;
    assert(d * d >= 1) by (nonlinear_arith)
        requires
            1 <= d,
    ;
    lemma_div_t_mul_le(diff.x * SCALE * SCALE, d * d, 1_000_000);
    lemma_div_t_mul_le(diff.y * SCALE * SCALE, d * d, 1_000_000);
}

/// The flocking forces on boid `i` from a read-only snapshot of the flock.
/// Returns `(alignment, cohesion, separation)`.
pub fn flock_forces(snapshot: &Vec<Boid>, i: usize, cfg: &Config) -> (r: (Vec2, Vec2, Vec2))
    requires
        wf_config(cfg@),
        i < snapshot@.len(),
        snapshot@.len() <= BOIDS_MAX,
        boids_in_range(boids_model(snapshot@)),
    ensures
        (r.0@, r.1@, r.2@) == flock_forces_spec(boids_model(snapshot@), i as int, cfg@),
        v_bounded(r.0@, cfg@.align_weight),
        v_bounded(r.1@, cfg@.cohesion_weight),
        v_bounded(r.2@, cfg@.separation_weight),
        len_of(r.0@) <= cfg@.align_weight,
        len_of(r.1@) <= cfg@.cohesion_weight,
        len_of(r.2@) <= cfg@.separation_weight,
{
    let ghost bm = boids_model(snapshot@);
    let ghost view = cfg@.view_radius;
    let n_boids = snapshot.len();
    let me = snapshot[i].position;
    let mut ax: i128 = 0;
    let mut ay: i128 = 0;
    let mut cx: i128 = 0;
    let mut cy: i128 = 0;
    let mut sx: i128 = 0;
    let mut sy: i128 = 0;
    let mut cnt: usize = 0;
    let mut j: usize = 0;
    while j < n_boids
        invariant
            wf_config(cfg@),
            i < snapshot@.len(),
            snapshot@.len() == n_boids <= BOIDS_MAX,
            boids_in_range(bm),
            bm == boids_model(snapshot@),
            view == cfg@.view_radius,
            me == snapshot@[i as int].position,
            j <= n_boids,
            cnt as int == nbr_count(bm, i as int, view, j as int),
            cnt <= j,
            ax as int == align_sum(bm, i as int, view, j as int).x,
            ay as int == align_sum(bm, i as int, view, j as int).y,
            cx as int == coh_sum(bm, i as int, view, j as int).x,
            cy as int == coh_sum(bm, i as int, view, j as int).y,
            sx as int == sep_sum(bm, i as int, view, j as int).x,
            sy as int == sep_sum(bm, i as int, view, j as int).y,
            abs_i(ax as int) <= cnt as int * POS_MAX,
            abs_i(ay as int) <= cnt as int * POS_MAX,
            abs_i(cx as int) <= cnt as int * POS_MAX,
            abs_i(cy as int) <= cnt as int * POS_MAX,
            abs_i(sx as int) <= cnt as int * 1_000_000,
            abs_i(sy as int) <= cnt as int * 1_000_000,
        decreases n_boids - j,
    {
        if j != i {
            proof {
                assert(bm[j as int] == snapshot@[j as int]@);
                assert(bm[i as int] == snapshot@[i as int]@);
                assert(crate::boid::boid_in_range(bm[j as int]));
                assert(crate::boid::boid_in_range(bm[i as int]));
            }
            let other = snapshot[j];
            let diff = other.position.sub(me);
            let dist = diff.length();
            if dist > 0 && dist < cfg.view_radius {
                proof {
                    assert(is_nbr(bm, i as int, j as int, view));
                    lemma_sep_pair_bounded(bm[i as int].pos, bm[j as int].pos);
                    lemma_component_le_len(diff@);
                    crate::vec2::lemma_len_le_bound(diff@, 2 * POS_MAX as int);
                    assert(abs_i(diff@.x * SCALE * SCALE) <= ((dist as int) * (dist as int))
                        * 1_000_000
                        && abs_i(diff@.y * SCALE * SCALE) <= ((dist as int) * (dist as int))
                        * 1_000_000
                        && 1 <= (dist as int) * (dist as int)
                        && (dist as int) * (dist as int)
                            <= 0x4000_0000_0000_0000 * 0x4000_0000_0000_0000)
                        by (nonlinear_arith)
                        requires
                            abs_i(diff@.x) <= dist as int,
                            abs_i(diff@.y) <= dist as int,
                            1 <= dist as int <= 0x4000_0000_0000_0000,
                            SCALE == 1000,
                    ;
                    lemma_div_t_mul_le(diff@.x * SCALE * SCALE, (dist as int) * (dist as int),
                        1_000_000);
                    lemma_div_t_mul_le(diff@.y * SCALE * SCALE, (dist as int) * (dist as int),
                        1_000_000);
                }
                ax = ax + other.velocity.x as i128;
                ay = ay + other.velocity.y as i128;
                cx = cx + other.position.x as i128;
                cy = cy + other.position.y as i128;
                let den: i128 = (dist as i128) * (dist as i128);
                let qx: i128 = ((diff.x as i128) * 1_000_000) / den;
                let qy: i128 = ((diff.y as i128) * 1_000_000) / den;
                sx = sx - qx;
                sy = sy - qy;
                cnt = cnt + 1;
            } else {
                proof {
                    assert(!is_nbr(bm, i as int, j as int, view));
                }
            }
        } else {
            proof {
                assert(!is_nbr(bm, i as int, j as int, view));
            }
        }
        j = j + 1;
    }
    let ghost k = bm.len() as int;
    proof {
        lemma_len_zero();
    }
    if cnt == 0 {
        (Vec2::zero(), Vec2::zero(), Vec2::zero())
    } else {
        let n = cnt as i128;
        proof {
            assert(bm[i as int] == snapshot@[i as int]@);
            assert(crate::boid::boid_in_range(bm[i as int]));
            lemma_div_t_mul_le(ax as int, cnt as int, POS_MAX as int);
            lemma_div_t_mul_le(ay as int, cnt as int, POS_MAX as int);
            lemma_div_t_mul_le(cx as int, cnt as int, POS_MAX as int);
            lemma_div_t_mul_le(cy as int, cnt as int, POS_MAX as int);
        }
        let align_avg = Vec2 { x: (ax / n) as i64, y: (ay / n) as i64 };
        let coh_avg = Vec2 { x: (cx / n) as i64, y: (cy / n) as i64 };
        let sep_acc = Vec2 { x: sx as i64, y: sy as i64 };
        proof {
            lemma_force_weight(align_avg@, cfg@.align_weight);
            lemma_force_weight(v_sub(coh_avg@, me@), cfg@.cohesion_weight);
            lemma_force_weight(sep_acc@, cfg@.separation_weight);
        }
        let alignment = align_avg.normalize_or_zero().mul_fp(cfg.align_weight);
        let cohesion = coh_avg.sub(me).normalize_or_zero().mul_fp(cfg.cohesion_weight);
        let separation = sep_acc.normalize_or_zero().mul_fp(cfg.separation_weight);
        (alignment, cohesion, separation)
    }
}

} // verus!

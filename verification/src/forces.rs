use vstd::prelude::*;
use crate::math::{abs_i, div_t, lemma_div_t_mul_le};
use crate::vec2::{Vec2, Vec2i, SCALE, v_zero, v_sub, v_bounded, len_of, normalize_spec,
    mul_fp_spec, lemma_normalize_bounded, lemma_force_weight, lemma_len_zero, muldiv};
use crate::config::{Config, ConfigM, wf_config, POS_MAX, CFG_MAX};
use crate::border::wf_arena;

verus! {

/// The linear falloff of one edge's repulsion: full strength (`SCALE`, one
/// unit) at the edge, zero at `d_avoid` away; distances past the edge push
/// harder still.
pub open spec fn edge_push(dist: int, d_avoid: int) -> int {
    if dist < d_avoid {
        let v = SCALE - div_t(dist * SCALE, d_avoid);
        if v > 0 {
            v
        } else {
            0
        }
    } else {
        0
    }
}

/// The raw (unnormalized) avoidance accumulator: each of the four visible
/// arena edges pushes inward along its axis, corners accumulate.
pub open spec fn avoidance_raw(pos: Vec2i, width: int, height: int, d_avoid: int) -> Vec2i {
    let left = -div_t(width, 2);
    let right = div_t(width, 2);
    let bottom = -div_t(height, 2);
    let top = div_t(height, 2);
    Vec2i {
        x: edge_push(pos.x - left, d_avoid) - edge_push(right - pos.x, d_avoid),
        y: edge_push(pos.y - bottom, d_avoid) - edge_push(top - pos.y, d_avoid),
    }
}

/// The border-avoidance steering force: the accumulated edge pushes,
/// normalized and scaled by the avoidance weight.
pub open spec fn avoidance_spec(pos: Vec2i, width: int, height: int, cfg: ConfigM) -> Vec2i {
    mul_fp_spec(
        normalize_spec(avoidance_raw(pos, width, height, cfg.avoidance_distance)),
        cfg.avoidance_weight,
    )
}

/// The attraction steering force: present only when a point sample is, and
/// only within the capture distance; a boid exactly on the point gets zero.
pub open spec fn attraction_spec(pos: Vec2i, attract: Option<Vec2i>, cfg: ConfigM) -> Vec2i {
    match attract {
        Option::None => v_zero(),
        Option::Some(p) => {
            let dir = v_sub(p, pos);
            if len_of(dir) < cfg.capture_distance {
                mul_fp_spec(normalize_spec(dir), cfg.attraction_weight)
            } else {
                v_zero()
            }
        },
    }
}

/// The model of an optional attraction-point sample.
pub open spec fn opt_model(o: Option<Vec2>) -> Option<Vec2i> {
    match o {
        Option::None => Option::None,
        Option::Some(v) => Option::Some(v@),
    }
}

/// One edge's repulsion, from the boid's distance to that edge.
fn edge_push_exec(dist: i64, d_avoid: i64) -> (r: i64)
    requires
        1 <= d_avoid <= CFG_MAX,
        abs_i(dist as int) <= 3 * POS_MAX,
    ensures
        r as int == edge_push(dist as int, d_avoid as int),
        0 <= r <= 3_221_225_473_000,
{
    if dist < d_avoid {
        proof {
            assert(abs_i(dist as int * SCALE) <= (d_avoid as int) * 0x4000_0000_0000_0000
                && abs_i(dist as int * SCALE) <= (d_avoid as int) * 3_221_225_472_000)
                by (nonlinear_arith)
                requires
                    abs_i(dist as int) <= 3 * POS_MAX,
                    1 <= d_avoid,
                    SCALE == 1000,
                    POS_MAX == 0x4000_0000,
            ;
            lemma_div_t_mul_le(dist as int * SCALE, d_avoid as int, 3_221_225_472_000);
        }
        let v = SCALE - muldiv(dist, SCALE, d_avoid);
        if v > 0 {
            v
        } else {
            0
        }
    } else {
        0
    }
}

/// The border-avoidance steering force on a boid at `pos`, measured against
/// the visible arena edges.
pub fn avoidance_force(pos: Vec2, width: i64, height: i64, cfg: &Config) -> (r: Vec2)
    requires
        wf_config(cfg@),
        wf_arena(width as int, height as int),
        v_bounded(pos@, 2 * POS_MAX as int),
    ensures
        r@ == avoidance_spec(pos@, width as int, height as int, cfg@),
        v_bounded(r@, cfg@.avoidance_weight),
        len_of(r@) <= cfg@.avoidance_weight,
{
    let left: i64 = -(width / 2);
    let right: i64 = width / 2;
    let bottom: i64 = -(height / 2);
    let top: i64 = height / 2;
    let px = edge_push_exec(pos.x - left, cfg.avoidance_distance);
    let nx = edge_push_exec(right - pos.x, cfg.avoidance_distance);
    let py = edge_push_exec(pos.y - bottom, cfg.avoidance_distance);
    let ny = edge_push_exec(top - pos.y, cfg.avoidance_distance);
    let raw = Vec2 { x: px - nx, y: py - ny };
    proof {
        assert(raw@ == avoidance_raw(pos@, width as int, height as int,
            cfg@.avoidance_distance));
        lemma_normalize_bounded(raw@);
        lemma_force_weight(raw@, cfg@.avoidance_weight);
    }
    raw.normalize_or_zero().mul_fp(cfg.avoidance_weight)
}

/// The attraction steering force on a boid at `pos`, given this tick's
/// optional attraction-point sample.
pub fn attraction_force(pos: Vec2, attract: Option<Vec2>, cfg: &Config) -> (r: Vec2)
    requires
        wf_config(cfg@),
        v_bounded(pos@, POS_MAX as int),
        attract matches Some(p) ==> v_bounded(p@, POS_MAX as int),
    ensures
        r@ == attraction_spec(pos@, opt_model(attract), cfg@),
        v_bounded(r@, cfg@.attraction_weight),
        len_of(r@) <= cfg@.attraction_weight,
{
    proof {
        lemma_len_zero();
    }
    match attract {
        Option::None => Vec2::zero(),
        Option::Some(p) => {
            let dir = p.sub(pos);
            let d = dir.length();
            if d < cfg.capture_distance {
                proof {
                    lemma_force_weight(dir@, cfg@.attraction_weight);
                }
                dir.normalize_or_zero().mul_fp(cfg.attraction_weight)
            } else {
                Vec2::zero()
            }
        },
    }
}

} // verus!

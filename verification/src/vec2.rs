use vstd::prelude::*;
use crate::math::{abs_i, div_t, sqrt_n, lemma_sqrt_props, lemma_sqrt_le, lemma_sqrt_square,
    lemma_sqrt_lt_square, lemma_div_t_mag, lemma_div_t_mul_le, lemma_div_t_lower, lemma_div_t_abs,
    lemma_div_t_zero, lemma_abs_sq};

verus! {

/// Fixed-point scale: one simulation unit is this many fixed-point steps.
pub const SCALE: i64 = 1000;

/// The largest coordinate magnitude the vector operations accept; far above
/// anything the simulation produces, and small enough that squared lengths
/// stay inside 128 bits.
pub const COORD_MAX: i64 = 0x2000_0000_0000_0000;

/// Intermediate precision of normalization: coordinates are scaled up by this
/// factor before the integer square root is taken, so the computed length
/// carries a relative error below one part in a million and the normalized
/// vector's length lands within a few steps of `SCALE` even for sub-unit
/// inputs.
pub const PRESCALE: i64 = 0x10_0000;

/// The largest coordinate magnitude `normalize_or_zero` accepts: the
/// prescaled squared length must stay inside 128 bits.
pub const NORM_MAX: i64 = 0x800_0000_0000;

/// A 2D vector in fixed-point coordinates.
#[derive(Clone, Copy, Debug, PartialEq, Eq, Structural)]
pub struct Vec2 {
    pub x: i64,
    pub y: i64,
}

/// The mathematical model of a vector: unbounded integer coordinates.
pub struct Vec2i {
    pub x: int,
    pub y: int,
}

impl View for Vec2 {
    type V = Vec2i;

    open spec fn view(&self) -> Vec2i {
        Vec2i { x: self.x as int, y: self.y as int }
    }
}

pub open spec fn v_zero() -> Vec2i {
    Vec2i { x: 0, y: 0 }
}

pub open spec fn v_add(a: Vec2i, b: Vec2i) -> Vec2i {
    Vec2i { x: a.x + b.x, y: a.y + b.y }
}

pub open spec fn v_sub(a: Vec2i, b: Vec2i) -> Vec2i {
    Vec2i { x: a.x - b.x, y: a.y - b.y }
}

pub open spec fn v_neg(a: Vec2i) -> Vec2i {
    Vec2i { x: -a.x, y: -a.y }
}

/// Component-wise scaling by an integer factor.
pub open spec fn v_scale(a: Vec2i, k: int) -> Vec2i {
    Vec2i { x: a.x * k, y: a.y * k }
}

/// Squared Euclidean length.
pub open spec fn norm2(a: Vec2i) -> int {
    a.x * a.x + a.y * a.y
}

/// Fixed-point Euclidean length: the integer square root of the squared length.
pub open spec fn len_of(a: Vec2i) -> int {
    sqrt_n(norm2(a))
}

/// Both coordinates within `[-m, m]`.
pub open spec fn v_bounded(a: Vec2i, m: int) -> bool {
    -m <= a.x <= m && -m <= a.y <= m
}

/// `normalize_or_zero`: the zero vector stays zero; anything else is scaled
/// to length `SCALE` (one simulation unit) within a few steps. The length is
/// taken of the vector prescaled by `PRESCALE`, so even sub-unit inputs keep
/// enough precision for the result's length to stay at most `SCALE`.
pub open spec fn normalize_spec(a: Vec2i) -> Vec2i {
    if a.x == 0 && a.y == 0 {
        v_zero()
    } else {
        let b = v_scale(a, PRESCALE as int);
        Vec2i {
            x: div_t(b.x * SCALE, len_of(b)),
            y: div_t(b.y * SCALE, len_of(b)),
        }
    }
}

/// Fixed-point scaling by a weight `w` (itself in fixed point): `a * w / SCALE`.
pub open spec fn mul_fp_spec(a: Vec2i, w: int) -> Vec2i {
    Vec2i { x: div_t(a.x * w, SCALE as int), y: div_t(a.y * w, SCALE as int) }
}

/// `clamp_length_max`: vectors no longer than `m` pass through unchanged;
/// longer ones are rescaled onto (or just inside) the radius-`m` circle.
pub open spec fn clamp_spec(a: Vec2i, m: int) -> Vec2i {
    if len_of(a) <= m {
        a
    } else {
        Vec2i {
            x: div_t(a.x * m, len_of(a)),
            y: div_t(a.y * m, len_of(a)),
        }
    }
}

/// The length is nonnegative, and no coordinate's magnitude exceeds it.
pub proof fn lemma_component_le_len(a: Vec2i)
    ensures
        0 <= len_of(a),
        abs_i(a.x) <= len_of(a),
        abs_i(a.y) <= len_of(a),
        (a.x == 0 && a.y == 0) <==> len_of(a) == 0,
{
    let n = norm2(a);
    assert(a.x * a.x == abs_i(a.x) * abs_i(a.x) && a.y * a.y == abs_i(a.y) * abs_i(a.y)
        && a.x * a.x >= 0 && a.y * a.y >= 0) by (nonlinear_arith);
    lemma_sqrt_props(n);
    lemma_sqrt_le(a.x * a.x, n);
    lemma_sqrt_le(a.y * a.y, n);
    lemma_sqrt_square(abs_i(a.x));
    lemma_sqrt_square(abs_i(a.y));
    if a.x == 0 && a.y == 0 {
        assert(len_of(a) == 0);
    }
}

/// A vector whose coordinates are bounded by `c` has length at most `2 * c`.
pub proof fn lemma_len_le_bound(a: Vec2i, c: int)
    requires
        0 <= c,
        v_bounded(a, c),
    ensures
        0 <= len_of(a) <= 2 * c,
{
    lemma_component_le_len(a);
    assert(norm2(a) < (2 * c + 1) * (2 * c + 1)) by (nonlinear_arith)
        requires
            -c <= a.x <= c,
            -c <= a.y <= c,
            0 <= c,
    ;
    lemma_sqrt_lt_square(norm2(a), 2 * c + 1);
}

/// Negating a vector keeps its length.
pub proof fn lemma_len_neg(a: Vec2i)
    ensures
        len_of(v_neg(a)) == len_of(a),
{
    assert(norm2(v_neg(a)) == norm2(a)) by (nonlinear_arith);
}

/// The prescaled copy of a nonzero vector: its squared length scales by the
/// square of the factor, and its length is at least the factor.
proof fn lemma_prescale(a: Vec2i)
    requires
        !(a.x == 0 && a.y == 0),
    ensures
        norm2(v_scale(a, PRESCALE as int)) == (PRESCALE as int) * (PRESCALE as int) * norm2(a),
        1 <= norm2(a),
        len_of(v_scale(a, PRESCALE as int)) >= PRESCALE as int,
{
    let p = PRESCALE as int;
    let b = v_scale(a, p);
    assert(norm2(b) == p * p * norm2(a) && 1 <= norm2(a) && p * p <= norm2(b))
        by (nonlinear_arith)
        requires
            b.x == a.x * p,
            b.y == a.y * p,
            norm2(b) == b.x * b.x + b.y * b.y,
            norm2(a) == a.x * a.x + a.y * a.y,
            !(a.x == 0 && a.y == 0),
            p == 0x10_0000,
    ;
    lemma_sqrt_square(p);
    lemma_sqrt_le(p * p, norm2(b));
}

/// The normalized vector's coordinates are bounded by `SCALE`.
pub proof fn lemma_normalize_bounded(a: Vec2i)
    ensures
        v_bounded(normalize_spec(a), SCALE as int),
{
    if a.x == 0 && a.y == 0 {
    } else {
        let b = v_scale(a, PRESCALE as int);
        lemma_component_le_len(b);
        lemma_prescale(a);
        let l = len_of(b);
        assert(abs_i(b.x * SCALE) <= l * SCALE && abs_i(b.y * SCALE) <= l * SCALE)
            by (nonlinear_arith)
            requires
                abs_i(b.x) <= l,
                abs_i(b.y) <= l,
                1 <= l,
        ;
        lemma_div_t_mul_le(b.x * SCALE, l, SCALE as int);
        lemma_div_t_mul_le(b.y * SCALE, l, SCALE as int);
    }
}

/// Normalization lands the squared length in a narrow band around one unit:
/// never above `SCALE`, and within three steps of `SCALE` for any nonzero
/// input. This is what keeps every steering force at its weight.
pub proof fn lemma_normalize_len(a: Vec2i)
    ensures
        norm2(normalize_spec(a)) <= SCALE as int * SCALE as int + 1,
        len_of(normalize_spec(a)) <= SCALE as int,
        !(a.x == 0 && a.y == 0) ==> norm2(normalize_spec(a)) >= SCALE as int * SCALE as int - 4
            * SCALE as int,
        !(a.x == 0 && a.y == 0) ==> len_of(normalize_spec(a)) >= SCALE as int - 3,
{
    let s = SCALE as int;
    let n = normalize_spec(a);
    if a.x == 0 && a.y == 0 {
        assert(norm2(n) == 0);
        lemma_component_le_len(n);
    } else {
        let b = v_scale(a, PRESCALE as int);
        let l = len_of(b);
        lemma_prescale(a);
        lemma_component_le_len(b);
        lemma_sqrt_props(norm2(b));
        lemma_div_t_mag(b.x * s, l);
        lemma_div_t_mag(b.y * s, l);
        lemma_abs_sq(n.x);
        lemma_abs_sq(n.y);
        lemma_abs_sq(b.x);
        lemma_abs_sq(b.y);
        assert(abs_i(b.x * s) == abs_i(b.x) * s && abs_i(b.y * s) == abs_i(b.y) * s)
            by (nonlinear_arith)
            requires
                s == 1000,
        ;
        // upper: norm2(n) * l^2 <= norm2(b) * s^2 <= (l^2 + 2l) * s^2, and
        // l > s^2 forces norm2(n) <= s^2 + 1
        assert(n.x * n.x * (l * l) <= (b.x * b.x) * (s * s)
            && n.y * n.y * (l * l) <= (b.y * b.y) * (s * s)) by (nonlinear_arith)
            requires
                1 <= l,
                abs_i(n.x) * l <= abs_i(b.x) * s,
                abs_i(n.y) * l <= abs_i(b.y) * s,
                0 <= abs_i(n.x),
                0 <= abs_i(n.y),
                abs_i(n.x) * abs_i(n.x) == n.x * n.x,
                abs_i(n.y) * abs_i(n.y) == n.y * n.y,
                abs_i(b.x) * abs_i(b.x) == b.x * b.x,
                abs_i(b.y) * abs_i(b.y) == b.y * b.y,
                s == 1000,
        ;
        assert(norm2(n) * (l * l) <= norm2(b) * (s * s)) by (nonlinear_arith)
            requires
                n.x * n.x * (l * l) <= (b.x * b.x) * (s * s),
                n.y * n.y * (l * l) <= (b.y * b.y) * (s * s),
                norm2(n) == n.x * n.x + n.y * n.y,
                norm2(b) == b.x * b.x + b.y * b.y,
        ;
        assert(norm2(n) <= s * s + 1) by (nonlinear_arith)
            requires
                norm2(n) * (l * l) <= norm2(b) * (s * s),
                norm2(b) < (l + 1) * (l + 1),
                l >= 0x10_0000,
                s == 1000,
        ;
        assert(norm2(n) >= 0) by (nonlinear_arith);
        lemma_sqrt_lt_square(norm2(n), s + 1);
        // lower: each quotient falls short of b.x * s / l by less than one,
        // so norm2(n) * l^2 >= s^2 * norm2(b) - 2 * l * s * (|b.x| + |b.y|)
        lemma_div_t_abs(b.x * s, l);
        lemma_div_t_abs(b.y * s, l);
        lemma_div_t_lower(abs_i(b.x * s), l);
        lemma_div_t_lower(abs_i(b.y * s), l);
        let ux = abs_i(b.x) * s;
        let uy = abs_i(b.y) * s;
        assert(abs_i(n.x) * l > ux - l && abs_i(n.y) * l > uy - l);
        assert(n.x * n.x * (l * l) >= ux * ux - 2 * ux * l
            && n.y * n.y * (l * l) >= uy * uy - 2 * uy * l) by (nonlinear_arith)
            requires
                abs_i(n.x) * l >= ux - l + 1,
                abs_i(n.y) * l >= uy - l + 1,
                0 <= abs_i(n.x),
                0 <= abs_i(n.y),
                0 <= ux,
                0 <= uy,
                1 <= l,
                abs_i(n.x) * abs_i(n.x) == n.x * n.x,
                abs_i(n.y) * abs_i(n.y) == n.y * n.y,
        ;
        assert(ux * ux + uy * uy == (s * s) * norm2(b)) by (nonlinear_arith)
            requires
                ux == abs_i(b.x) * s,
                uy == abs_i(b.y) * s,
                norm2(b) == b.x * b.x + b.y * b.y,
                abs_i(b.x) * abs_i(b.x) == b.x * b.x,
                abs_i(b.y) * abs_i(b.y) == b.y * b.y,
        ;
        assert(norm2(n) * (l * l) >= (s * s) * norm2(b) - 2 * l * (ux + uy)) by (nonlinear_arith)
            requires
                n.x * n.x * (l * l) >= ux * ux - 2 * ux * l,
                n.y * n.y * (l * l) >= uy * uy - 2 * uy * l,
                ux * ux + uy * uy == (s * s) * norm2(b),
                norm2(n) == n.x * n.x + n.y * n.y,
        ;
        assert(ux <= s * l && uy <= s * l) by (nonlinear_arith)
            requires
                ux == abs_i(b.x) * s,
                uy == abs_i(b.y) * s,
                abs_i(b.x) <= l,
                abs_i(b.y) <= l,
                s == 1000,
        ;
        assert((s * s) * norm2(b) - 2 * l * (ux + uy) >= (s * s) * (l * l) - 4 * s * (l * l))
            by (nonlinear_arith)
            requires
                ux <= s * l,
                uy <= s * l,
                l * l <= norm2(b),
                1 <= l,
                s == 1000,
        ;
        assert(norm2(n) >= s * s - 4 * s) by (nonlinear_arith)
            requires
                norm2(n) * (l * l) >= (s * s) * (l * l) - 4 * s * (l * l),
                1 <= l,
        ;
        assert((s - 3) * (s - 3) <= s * s - 4 * s) by (nonlinear_arith)
            requires
                s == 1000,
        ;
        lemma_sqrt_le((s - 3) * (s - 3), norm2(n));
        lemma_sqrt_square(s - 3);
    }
}

/// The weight cap under which a steering force's length provably never
/// exceeds its weight (it equals `2 * SCALE * SCALE`).
pub const WEIGHT_MAX: i64 = 2_000_000;

/// The per-force magnitude law: a steering force built as
/// `normalize_or_zero(acc) * weight` is the zero vector when the accumulator
/// is zero, and otherwise its magnitude is the weight, up to a rounding
/// margin below half a percent: never above `w`, and at least
/// `w - (4 * w / SCALE + 5)`.
pub proof fn lemma_force_weight(a: Vec2i, w: int)
    requires
        0 <= w <= WEIGHT_MAX,
    ensures
        len_of(mul_fp_spec(normalize_spec(a), w)) <= w,
        a.x == 0 && a.y == 0 ==> mul_fp_spec(normalize_spec(a), w) == v_zero(),
        !(a.x == 0 && a.y == 0) ==> len_of(mul_fp_spec(normalize_spec(a), w)) >= w - (4 * w / (
        SCALE as int) + 5),
{
    let s = SCALE as int;
    let n = normalize_spec(a);
    let f = mul_fp_spec(n, w);
    lemma_normalize_len(a);
    lemma_normalize_bounded(a);
    lemma_div_t_zero(s);
    if a.x == 0 && a.y == 0 {
        assert(n == v_zero());
        assert(n.x * w == 0 && n.y * w == 0) by (nonlinear_arith)
            requires
                n.x == 0,
                n.y == 0,
        ;
        assert(f == v_zero());
        lemma_len_zero();
    } else {
        lemma_div_t_mag(n.x * w, s);
        lemma_div_t_mag(n.y * w, s);
        lemma_abs_sq(f.x);
        lemma_abs_sq(f.y);
        lemma_abs_sq(n.x);
        lemma_abs_sq(n.y);
        assert(abs_i(n.x * w) == abs_i(n.x) * w && abs_i(n.y * w) == abs_i(n.y) * w)
            by (nonlinear_arith)
            requires
                0 <= w,
        ;
        // upper: norm2(f) * s^2 <= norm2(n) * w^2 <= (s^2 + 1) * w^2, and
        // w <= 2 s^2 turns that into norm2(f) <= w^2 + 2w
        assert(f.x * f.x * (s * s) <= (n.x * n.x) * (w * w)
            && f.y * f.y * (s * s) <= (n.y * n.y) * (w * w)) by (nonlinear_arith)
            requires
                abs_i(f.x) * s <= abs_i(n.x) * w,
                abs_i(f.y) * s <= abs_i(n.y) * w,
                0 <= abs_i(f.x),
                0 <= abs_i(f.y),
                abs_i(f.x) * abs_i(f.x) == f.x * f.x,
                abs_i(f.y) * abs_i(f.y) == f.y * f.y,
                abs_i(n.x) * abs_i(n.x) == n.x * n.x,
                abs_i(n.y) * abs_i(n.y) == n.y * n.y,
                s == 1000,
        ;
        assert(norm2(f) * (s * s) <= norm2(n) * (w * w)) by (nonlinear_arith)
            requires
                f.x * f.x * (s * s) <= (n.x * n.x) * (w * w),
                f.y * f.y * (s * s) <= (n.y * n.y) * (w * w),
                norm2(f) == f.x * f.x + f.y * f.y,
                norm2(n) == n.x * n.x + n.y * n.y,
        ;
        assert(norm2(f) <= w * w + 2 * w) by (nonlinear_arith)
            requires
                norm2(f) * (s * s) <= norm2(n) * (w * w),
                norm2(n) <= s * s + 1,
                0 <= w <= 2 * s * s,
                s == 1000,
        ;
        assert(norm2(f) >= 0) by (nonlinear_arith);
        assert(norm2(f) < (w + 1) * (w + 1)) by (nonlinear_arith)
            requires
                norm2(f) <= w * w + 2 * w,
        ;
        lemma_sqrt_lt_square(norm2(f), w + 1);
        // lower: each quotient falls short of n.x * w / s by less than one
        lemma_div_t_abs(n.x * w, s);
        lemma_div_t_abs(n.y * w, s);
        lemma_div_t_lower(abs_i(n.x * w), s);
        lemma_div_t_lower(abs_i(n.y * w), s);
        let ux = abs_i(n.x) * w;
        let uy = abs_i(n.y) * w;
        assert(f.x * f.x * (s * s) >= ux * ux - 2 * ux * s
            && f.y * f.y * (s * s) >= uy * uy - 2 * uy * s) by (nonlinear_arith)
            requires
                abs_i(f.x) * s >= ux - s + 1,
                abs_i(f.y) * s >= uy - s + 1,
                0 <= abs_i(f.x),
                0 <= abs_i(f.y),
                0 <= ux,
                0 <= uy,
                abs_i(f.x) * abs_i(f.x) == f.x * f.x,
                abs_i(f.y) * abs_i(f.y) == f.y * f.y,
                s == 1000,
        ;
        assert(ux * ux + uy * uy == norm2(n) * (w * w)) by (nonlinear_arith)
            requires
                ux == abs_i(n.x) * w,
                uy == abs_i(n.y) * w,
                norm2(n) == n.x * n.x + n.y * n.y,
                abs_i(n.x) * abs_i(n.x) == n.x * n.x,
                abs_i(n.y) * abs_i(n.y) == n.y * n.y,
        ;
        assert(ux <= s * w && uy <= s * w) by (nonlinear_arith)
            requires
                ux == abs_i(n.x) * w,
                uy == abs_i(n.y) * w,
                abs_i(n.x) <= s,
                abs_i(n.y) <= s,
                0 <= w,
        ;
        assert(norm2(f) * (s * s) >= norm2(n) * (w * w) - 2 * s * (ux + uy)) by (nonlinear_arith)
            requires
                f.x * f.x * (s * s) >= ux * ux - 2 * ux * s,
                f.y * f.y * (s * s) >= uy * uy - 2 * uy * s,
                ux * ux + uy * uy == norm2(n) * (w * w),
                norm2(f) == f.x * f.x + f.y * f.y,
        ;
        assert(norm2(f) * (s * s) >= (w * w) * (s * s - 4 * s) - 4 * (s * s) * w)
            by (nonlinear_arith)
            requires
                norm2(f) * (s * s) >= norm2(n) * (w * w) - 2 * s * (ux + uy),
                norm2(n) >= s * s - 4 * s,
                ux <= s * w,
                uy <= s * w,
                0 <= w,
                s == 1000,
        ;
        let q = 4 * w / s;
        let c = q + 5;
        vstd::arithmetic::div_mod::lemma_fundamental_div_mod(4 * w, s);
        vstd::arithmetic::div_mod::lemma_div_pos_is_pos(4 * w, s);
        vstd::arithmetic::div_mod::lemma_mod_division_less_than_divisor(4 * w, s);
        if c <= w {
            // s * c * w >= 4 w^2 + 4 s w, so (w - c)^2 <= norm2(f)
            assert(s * q >= 4 * w - s + 1) by (nonlinear_arith)
                requires
                    4 * w == s * q + (4 * w) % s,
                    0 <= (4 * w) % s < s,
            ;
            assert((w - c) * (w - c) * (s * s) <= (w * w) * (s * s - 4 * s) - 4 * (s * s) * w)
                by (nonlinear_arith)
                requires
                    c == q + 5,
                    s * q >= 4 * w - s + 1,
                    0 <= q,
                    c <= w,
                    0 <= w,
                    s == 1000,
            ;
            assert(norm2(f) >= (w - c) * (w - c)) by (nonlinear_arith)
                requires
                    norm2(f) * (s * s) >= (w * w) * (s * s - 4 * s) - 4 * (s * s) * w,
                    (w - c) * (w - c) * (s * s) <= (w * w) * (s * s - 4 * s) - 4 * (s * s) * w,
                    s == 1000,
            ;
            lemma_sqrt_le((w - c) * (w - c), norm2(f));
            lemma_sqrt_square(w - c);
        } else {
            lemma_component_le_len(f);
        }
    }
}

/// Two-dimensional Cauchy-Schwarz: the dot product squared never exceeds the
/// product of the squared lengths.
proof fn lemma_cauchy_schwarz(a: Vec2i, b: Vec2i)
    ensures
        (a.x * b.x + a.y * b.y) * (a.x * b.x + a.y * b.y) <= norm2(a) * norm2(b),
{
    let p = a.x;
    let q = a.y;
    let r = b.x;
    let t = b.y;
    let dot = p * r + q * t;
    let det = p * t - q * r;
    assert((p * r + q * t) * (p * r + q * t) == (p * r) * (p * r) + 2 * ((p * r) * (q * t)) + (q
        * t) * (q * t) && (p * t - q * r) * (p * t - q * r) == (p * t) * (p * t) - 2 * ((p * t) * (
    q * r)) + (q * r) * (q * r)) by (nonlinear_arith)
        requires
            true,
    ;
    assert((p * r) * (p * r) == (p * p) * (r * r) && (q * t) * (q * t) == (q * q) * (t * t) && (p
        * t) * (p * t) == (p * p) * (t * t) && (q * r) * (q * r) == (q * q) * (r * r))
        by (nonlinear_arith);
    assert((p * r) * (q * t) == (p * t) * (q * r)) by (nonlinear_arith);
    assert((p * p + q * q) * (r * r + t * t) == (p * p) * (r * r) + (p * p) * (t * t) + (q * q) * (
    r * r) + (q * q) * (t * t)) by (nonlinear_arith);
    assert(det * det >= 0) by (nonlinear_arith);
    assert(norm2(a) == p * p + q * q && norm2(b) == r * r + t * t);
}

/// The triangle inequality, up to one step of integer-square-root rounding.
pub proof fn lemma_len_triangle(a: Vec2i, b: Vec2i)
    ensures
        len_of(v_add(a, b)) <= len_of(a) + len_of(b) + 1,
{
    let la = len_of(a);
    let lb = len_of(b);
    lemma_component_le_len(a);
    lemma_component_le_len(b);
    lemma_sqrt_props(norm2(a));
    lemma_sqrt_props(norm2(b));
    lemma_cauchy_schwarz(a, b);
    let dot = a.x * b.x + a.y * b.y;
    assert(norm2(a) >= 0 && norm2(b) >= 0) by (nonlinear_arith);
    assert(dot <= (la + 1) * (lb + 1) - 1) by (nonlinear_arith)
        requires
            dot * dot <= norm2(a) * norm2(b),
            norm2(a) < (la + 1) * (la + 1),
            norm2(b) < (lb + 1) * (lb + 1),
            0 <= norm2(a),
            0 <= norm2(b),
            0 <= la,
            0 <= lb,
    ;
    assert(norm2(v_add(a, b)) == norm2(a) + norm2(b) + 2 * dot) by (nonlinear_arith)
        requires
            norm2(v_add(a, b)) == (a.x + b.x) * (a.x + b.x) + (a.y + b.y) * (a.y + b.y),
            norm2(a) == a.x * a.x + a.y * a.y,
            norm2(b) == b.x * b.x + b.y * b.y,
            dot == a.x * b.x + a.y * b.y,
    ;
    assert(norm2(v_add(a, b)) < (la + lb + 2) * (la + lb + 2)) by (nonlinear_arith)
        requires
            norm2(v_add(a, b)) == norm2(a) + norm2(b) + 2 * dot,
            norm2(a) < (la + 1) * (la + 1),
            norm2(b) < (lb + 1) * (lb + 1),
            dot <= (la + 1) * (lb + 1) - 1,
            0 <= la,
            0 <= lb,
    ;
    assert(norm2(v_add(a, b)) >= 0) by (nonlinear_arith);
    lemma_sqrt_lt_square(norm2(v_add(a, b)), la + lb + 2);
}

/// The zero vector has zero length.
pub proof fn lemma_len_zero()
    ensures
        len_of(v_zero()) == 0,
{
    assert(norm2(v_zero()) == 0);
    lemma_component_le_len(v_zero());
}

/// Scaling a `SCALE`-bounded vector by a nonnegative fixed-point weight `w`
/// bounds the result's coordinates by `w`.
pub proof fn lemma_mul_fp_bounded(a: Vec2i, w: int)
    requires
        v_bounded(a, SCALE as int),
        0 <= w,
    ensures
        v_bounded(mul_fp_spec(a, w), w),
{
    assert(abs_i(a.x * w) <= SCALE * w && abs_i(a.y * w) <= SCALE * w) by (nonlinear_arith)
        requires
            -SCALE <= a.x <= SCALE,
            -SCALE <= a.y <= SCALE,
            0 <= w,
            SCALE == 1000,
    ;
    lemma_div_t_mul_le(a.x * w, SCALE as int, w);
    lemma_div_t_mul_le(a.y * w, SCALE as int, w);
}

/// The central speed-limit fact: clamping really bounds the length by `m`
/// (and never grows the coordinates past `m` either).
pub proof fn lemma_clamp_len(a: Vec2i, m: int)
    requires
        0 <= m,
    ensures
        len_of(clamp_spec(a, m)) <= m,
        v_bounded(clamp_spec(a, m), m),
        len_of(a) <= m ==> clamp_spec(a, m) == a,
{
    let l = len_of(a);
    lemma_component_le_len(a);
    if l <= m {
    } else {
        let r = clamp_spec(a, m);
        lemma_div_t_mag(a.x * m, l);
        lemma_div_t_mag(a.y * m, l);
        lemma_abs_sq(r.x);
        lemma_abs_sq(r.y);
        lemma_abs_sq(a.x);
        lemma_abs_sq(a.y);
        assert(abs_i(a.x * m) == abs_i(a.x) * m && abs_i(a.y * m) == abs_i(a.y) * m)
            by (nonlinear_arith)
            requires
                0 <= m,
        ;
        // coordinate bound: |a.x| <= l gives |r.x| * l <= |a.x| * m <= l * m, so |r.x| <= m
        assert(abs_i(r.x) <= m && abs_i(r.y) <= m) by (nonlinear_arith)
            requires
                1 <= l,
                0 <= m,
                abs_i(r.x) * l <= abs_i(a.x) * m,
                abs_i(r.y) * l <= abs_i(a.y) * m,
                abs_i(a.x) <= l,
                abs_i(a.y) <= l,
                0 <= abs_i(r.x),
                0 <= abs_i(r.y),
        ;
        // squared bound: (r.x^2 + r.y^2) * l^2 <= (a.x^2 + a.y^2) * m^2
        assert(r.x * r.x * (l * l) <= (a.x * a.x) * (m * m)
            && r.y * r.y * (l * l) <= (a.y * a.y) * (m * m)) by (nonlinear_arith)
            requires
                1 <= l,
                0 <= m,
                abs_i(r.x) * l <= abs_i(a.x) * m,
                abs_i(r.y) * l <= abs_i(a.y) * m,
                0 <= abs_i(r.x),
                0 <= abs_i(r.y),
                abs_i(r.x) * abs_i(r.x) == r.x * r.x,
                abs_i(r.y) * abs_i(r.y) == r.y * r.y,
                abs_i(a.x) * abs_i(a.x) == a.x * a.x,
                abs_i(a.y) * abs_i(a.y) == a.y * a.y,
        ;
        lemma_sqrt_props(norm2(a));
        // norm2(r) * l^2 <= norm2(a) * m^2, summing the two coordinate bounds
        assert(norm2(r) * (l * l) <= norm2(a) * (m * m)) by (nonlinear_arith)
            requires
                r.x * r.x * (l * l) <= (a.x * a.x) * (m * m),
                r.y * r.y * (l * l) <= (a.y * a.y) * (m * m),
                norm2(a) == a.x * a.x + a.y * a.y,
                norm2(r) == r.x * r.x + r.y * r.y,
        ;
        // norm2(a) <= l^2 + 2l, and m < l gives 2 * l * m^2 <= 2 * m * l^2
        assert(norm2(a) * (m * m) <= (m * m + 2 * m) * (l * l)) by (nonlinear_arith)
            requires
                1 <= l,
                0 <= m,
                m < l,
                norm2(a) < (l + 1) * (l + 1),
        ;
        assert(norm2(r) <= m * m + 2 * m) by (nonlinear_arith)
            requires
                1 <= l,
                norm2(r) * (l * l) <= (m * m + 2 * m) * (l * l),
        ;
        assert(norm2(r) < (m + 1) * (m + 1)) by (nonlinear_arith)
            requires
                norm2(r) <= m * m + 2 * m,
        ;
        assert(norm2(r) >= 0) by (nonlinear_arith);
        lemma_sqrt_lt_square(norm2(r), m + 1);
    }
}

/// Multiply `a` and `b` and divide by `d`, rounding toward zero, all without
/// overflow; the workhorse of every fixed-point operation here.
pub(crate) fn muldiv(a: i64, b: i64, d: i64) -> (r: i64)
    requires
        d >= 1,
        abs_i(a as int * b as int) <= d * 0x4000_0000_0000_0000,
    ensures
        r as int == div_t(a as int * b as int, d as int),
{
    proof {
        assert((a as int) * (b as int) < 0x8000_0000_0000_0000_0000_0000_0000_0000
            && -0x8000_0000_0000_0000_0000_0000_0000_0000 <= (a as int) * (b as int))
            by (nonlinear_arith)
            requires
                -0x8000_0000_0000_0000 <= a as int <= 0x7fff_ffff_ffff_ffff,
                -0x8000_0000_0000_0000 <= b as int <= 0x7fff_ffff_ffff_ffff,
        ;
    }
    let p: i128 = (a as i128) * (b as i128);
    let q: i128 = p / (d as i128);
    proof {
        lemma_div_t_mul_le(p as int, d as int, 0x4000_0000_0000_0000);
    }
    q as i64
}

impl Vec2 {
    pub fn new(x: i64, y: i64) -> (r: Vec2)
        ensures
            r@ == (Vec2i { x: x as int, y: y as int }),
    {
        Vec2 { x, y }
    }

    pub fn zero() -> (r: Vec2)
        ensures
            r@ == v_zero(),
    {
        Vec2 { x: 0, y: 0 }
    }

    pub fn add(self, o: Vec2) -> (r: Vec2)
        requires
            i64::MIN <= self@.x + o@.x <= i64::MAX,
            i64::MIN <= self@.y + o@.y <= i64::MAX,
        ensures
            r@ == v_add(self@, o@),
    {
        Vec2 { x: self.x + o.x, y: self.y + o.y }
    }

    pub fn sub(self, o: Vec2) -> (r: Vec2)
        requires
            i64::MIN <= self@.x - o@.x <= i64::MAX,
            i64::MIN <= self@.y - o@.y <= i64::MAX,
        ensures
            r@ == v_sub(self@, o@),
    {
        Vec2 { x: self.x - o.x, y: self.y - o.y }
    }

    /// Fixed-point Euclidean length.
    pub fn length(self) -> (l: i64)
        requires
            abs_i(self@.x) <= COORD_MAX as int,
            abs_i(self@.y) <= COORD_MAX as int,
        ensures
            l as int == len_of(self@),
            0 <= l,
    {
        proof {
            assert(0 <= (self.x as int) * (self.x as int)
                    <= 0x2000_0000_0000_0000 * 0x2000_0000_0000_0000
                && 0 <= (self.y as int) * (self.y as int)
                    <= 0x2000_0000_0000_0000 * 0x2000_0000_0000_0000)
                by (nonlinear_arith)
                requires
                    abs_i(self.x as int) <= 0x2000_0000_0000_0000,
                    abs_i(self.y as int) <= 0x2000_0000_0000_0000,
            ;
        }
        let xx: i128 = (self.x as i128) * (self.x as i128);
        let yy: i128 = (self.y as i128) * (self.y as i128);
        let n: u128 = (xx + yy) as u128;
        let r: u128 = crate::math::isqrt_u128(n);
        proof {
            lemma_sqrt_lt_square(n as int, 0x4000_0000_0000_0000);
        }
        r as i64
    }

    /// The zero vector normalizes to zero; anything else is scaled to length
    /// `SCALE` within a few steps (`lemma_normalize_len` pins the band). The
    /// square root is taken of the `PRESCALE`-scaled vector, keeping sub-unit
    /// inputs precise.
    pub fn normalize_or_zero(self) -> (r: Vec2)
        requires
            abs_i(self@.x) <= NORM_MAX as int,
            abs_i(self@.y) <= NORM_MAX as int,
        ensures
            r@ == normalize_spec(self@),
            v_bounded(r@, SCALE as int),
    {
        proof {
            lemma_normalize_bounded(self@);
        }
        if self.x == 0 && self.y == 0 {
            Vec2 { x: 0, y: 0 }
        } else {
            let ghost b = v_scale(self@, PRESCALE as int);
            let bx: i128 = (self.x as i128) * (PRESCALE as i128);
            let by: i128 = (self.y as i128) * (PRESCALE as i128);
            proof {
                assert(bx as int == b.x && by as int == b.y);
                assert(0 <= bx * bx <= 0x8000_0000_0000_0000 * 0x8000_0000_0000_0000
                    && 0 <= by * by <= 0x8000_0000_0000_0000 * 0x8000_0000_0000_0000)
                    by (nonlinear_arith)
                    requires
                        abs_i(bx as int) <= 0x8000_0000_0000_0000,
                        abs_i(by as int) <= 0x8000_0000_0000_0000,
                ;
            }
            let xx: i128 = bx * bx;
            let yy: i128 = by * by;
            let n: u128 = (xx as u128) + (yy as u128);
            let l: u128 = crate::math::isqrt_u128(n);
            proof {
                assert(n as int == norm2(b));
                lemma_prescale(self@);
                lemma_component_le_len(b);
                crate::math::lemma_sqrt_lt_square(n as int, 0x1_0000_0000_0000_0000);
                assert(l as int == len_of(b));
                assert(abs_i(b.x * SCALE) <= (l as int) * SCALE
                    && abs_i(b.y * SCALE) <= (l as int) * SCALE) by (nonlinear_arith)
                    requires
                        abs_i(b.x) <= l as int,
                        abs_i(b.y) <= l as int,
                        1 <= l as int,
                        SCALE == 1000,
                ;
                lemma_div_t_mul_le(b.x * SCALE, l as int, SCALE as int);
                lemma_div_t_mul_le(b.y * SCALE, l as int, SCALE as int);
            }
            let li: i128 = l as i128;
            let qx: i128 = (bx * (SCALE as i128)) / li;
            let qy: i128 = (by * (SCALE as i128)) / li;
            Vec2 { x: qx as i64, y: qy as i64 }
        }
    }

    /// Fixed-point scaling by a weight: `self * w / SCALE`.
    pub fn mul_fp(self, w: i64) -> (r: Vec2)
        requires
            v_bounded(self@, SCALE as int),
            0 <= w <= 0x4000_0000_0000_0000,
        ensures
            r@ == mul_fp_spec(self@, w as int),
            v_bounded(r@, w as int),
    {
        proof {
            assert(abs_i(self@.x * w) <= (SCALE as int) * 0x4000_0000_0000_0000
                && abs_i(self@.y * w) <= (SCALE as int) * 0x4000_0000_0000_0000)
                by (nonlinear_arith)
                requires
                    -SCALE <= self@.x <= SCALE,
                    -SCALE <= self@.y <= SCALE,
                    0 <= w <= 0x4000_0000_0000_0000,
                    SCALE == 1000,
            ;
            lemma_mul_fp_bounded(self@, w as int);
        }
        Vec2 { x: muldiv(self.x, w, SCALE), y: muldiv(self.y, w, SCALE) }
    }

    /// Rescale onto the radius-`m` circle if longer than `m`.
    pub fn clamp_length_max(self, m: i64) -> (r: Vec2)
        requires
            0 <= m <= COORD_MAX as int,
            abs_i(self@.x) <= COORD_MAX as int,
            abs_i(self@.y) <= COORD_MAX as int,
        ensures
            r@ == clamp_spec(self@, m as int),
            len_of(r@) <= m as int,
            abs_i(r@.x) <= len_of(r@),
            abs_i(r@.y) <= len_of(r@),
    {
        proof {
            lemma_clamp_len(self@, m as int);
            lemma_component_le_len(clamp_spec(self@, m as int));
        }
        let l = self.length();
        if l <= m {
            self
        } else {
            proof {
                lemma_component_le_len(self@);
                assert(abs_i(self@.x * m) <= (l as int) * 0x4000_0000_0000_0000
                    && abs_i(self@.y * m) <= (l as int) * 0x4000_0000_0000_0000)
                    by (nonlinear_arith)
                    requires
                        abs_i(self@.x) <= l as int,
                        abs_i(self@.y) <= l as int,
                        1 <= l as int,
                        0 <= m <= 0x2000_0000_0000_0000,
                ;
            }
            Vec2 { x: muldiv(self.x, m, l), y: muldiv(self.y, m, l) }
        }
    }
}

} // verus!

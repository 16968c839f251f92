use vstd::prelude::*;

verus! {

/// Absolute value of a mathematical integer.
pub open spec fn abs_i(a: int) -> int {
    if a >= 0 {
        a
    } else {
        -a
    }
}

/// Truncating (round-toward-zero) division, the semantics of Rust's `/` on
/// signed integers, written over Euclidean spec division.
pub open spec fn div_t(a: int, b: int) -> int {
    if a >= 0 {
        a / b
    } else {
        -((-a) / b)
    }
}

/// The integer square root: the greatest `r` with `r * r <= n`.
pub open spec fn sqrt_n(n: int) -> int
    decreases n,
{
    if n <= 0 {
        0
    } else {
        let r = sqrt_n(n - 1);
        if (r + 1) * (r + 1) <= n {
            r + 1
        } else {
            r
        }
    }
}

/// `sqrt_n(n)` is indeed the integer square root of `n`.
pub proof fn lemma_sqrt_props(n: int)
    requires
        n >= 0,
    ensures
        0 <= sqrt_n(n),
        sqrt_n(n) * sqrt_n(n) <= n,
        n < (sqrt_n(n) + 1) * (sqrt_n(n) + 1),
    decreases n,
{
    if n == 0 {
        assert(sqrt_n(0) == 0);
    } else {
        lemma_sqrt_props(n - 1);
        let r = sqrt_n(n - 1);
        if (r + 1) * (r + 1) <= n {
            assert(sqrt_n(n) == r + 1);
            assert(n < (r + 2) * (r + 2)) by (nonlinear_arith)
                requires
                    0 <= r,
                    n - 1 < (r + 1) * (r + 1),
            ;
        } else {
            assert(sqrt_n(n) == r);
        }
    }
}

/// Any `r` with `r * r <= n < (r + 1) * (r + 1)` is `sqrt_n(n)`.
pub proof fn lemma_sqrt_unique(n: int, r: int)
    requires
        0 <= r,
        r * r <= n,
        n < (r + 1) * (r + 1),
    ensures
        r == sqrt_n(n),
{
    lemma_sqrt_props(n);
    let s = sqrt_n(n);
    assert(!(r < s || s < r)) by (nonlinear_arith)
        requires
            0 <= r,
            0 <= s,
            r * r <= n,
            n < (r + 1) * (r + 1),
            s * s <= n,
            n < (s + 1) * (s + 1),
    ;
}

/// The integer square root is monotone.
pub proof fn lemma_sqrt_le(m: int, n: int)
    requires
        0 <= m,
        m <= n,
    ensures
        sqrt_n(m) <= sqrt_n(n),
{
    lemma_sqrt_props(m);
    lemma_sqrt_props(n);
    let a = sqrt_n(m);
    let b = sqrt_n(n);
    assert(a <= b) by (nonlinear_arith)
        requires
            0 <= a,
            0 <= b,
            a * a <= m,
            m < (a + 1) * (a + 1),
            b * b <= n,
            n < (b + 1) * (b + 1),
            m <= n,
    ;
}

/// The square root of a perfect square.
pub proof fn lemma_sqrt_square(a: int)
    requires
        0 <= a,
    ensures
        sqrt_n(a * a) == a,
{
    assert(a * a < (a + 1) * (a + 1)) by (nonlinear_arith)
        requires
            0 <= a,
    ;
    lemma_sqrt_unique(a * a, a);
}

/// A square root below a strict square bound.
pub proof fn lemma_sqrt_lt_square(n: int, m: int)
    requires
        0 <= n,
        0 <= m,
        n < m * m,
    ensures
        sqrt_n(n) < m,
{
    lemma_sqrt_props(n);
    let s = sqrt_n(n);
    assert(s < m) by (nonlinear_arith)
        requires
            0 <= s,
            0 <= m,
            s * s <= n,
            n < m * m,
    ;
}

/// Truncating division is odd: negating the dividend negates the quotient.
pub proof fn lemma_div_t_neg(a: int, b: int)
    requires
        b >= 1,
    ensures
        div_t(-a, b) == -div_t(a, b),
{
    if a == 0 {
        vstd::arithmetic::div_mod::lemma_div_of0(b);
    }
}

/// Bounds of truncating division by a positive divisor: the quotient has the
/// dividend's sign and its magnitude times the divisor never exceeds the
/// dividend's magnitude.
pub proof fn lemma_div_t_mag(a: int, b: int)
    requires
        b >= 1,
    ensures
        abs_i(div_t(a, b)) * b <= abs_i(a),
        abs_i(div_t(a, b)) <= abs_i(a),
        a >= 0 ==> div_t(a, b) >= 0,
        a <= 0 ==> div_t(a, b) <= 0,
{
    let m = abs_i(a);
    vstd::arithmetic::div_mod::lemma_fundamental_div_mod(m, b);
    vstd::arithmetic::div_mod::lemma_div_pos_is_pos(m, b);
    let q = m / b;
    assert(q * b <= m && q <= m) by (nonlinear_arith)
        requires
            b >= 1,
            q >= 0,
            m == b * q + m % b,
            m % b >= 0,
    ;
}

/// If the dividend's magnitude is at most `b * c`, the truncated quotient's
/// magnitude is at most `c`.
pub proof fn lemma_div_t_mul_le(a: int, b: int, c: int)
    requires
        b >= 1,
        c >= 0,
        abs_i(a) <= b * c,
    ensures
        abs_i(div_t(a, b)) <= c,
{
    lemma_div_t_mag(a, b);
    let q = abs_i(div_t(a, b));
    assert(q <= c) by (nonlinear_arith)
        requires
            b >= 1,
            c >= 0,
            q >= 0,
            q * b <= b * c,
    ;
}

/// The quotient times a positive divisor falls short of a nonnegative
/// dividend by less than the divisor.
pub proof fn lemma_div_t_lower(u: int, l: int)
    requires
        0 <= u,
        1 <= l,
    ensures
        0 <= div_t(u, l),
        div_t(u, l) * l > u - l,
{
    vstd::arithmetic::div_mod::lemma_fundamental_div_mod(u, l);
    vstd::arithmetic::div_mod::lemma_div_pos_is_pos(u, l);
    vstd::arithmetic::div_mod::lemma_mod_division_less_than_divisor(u, l);
    let q = u / l;
    assert(q * l > u - l) by (nonlinear_arith)
        requires
            u == l * q + u % l,
            0 <= u % l < l,
    ;
}

/// Truncating division commutes with the absolute value.
pub proof fn lemma_div_t_abs(a: int, b: int)
    requires
        b >= 1,
    ensures
        abs_i(div_t(a, b)) == div_t(abs_i(a), b),
{
    lemma_div_t_mag(a, b);
    if a < 0 {
        lemma_div_t_neg(-a, b);
    }
}

/// The square of the absolute value is the square.
pub proof fn lemma_abs_sq(x: int)
    ensures
        0 <= abs_i(x),
        abs_i(x) * abs_i(x) == x * x,
{
    let t = abs_i(x);
    assert(t * t == x * x) by (nonlinear_arith)
        requires
            t == x || t == -x,
    ;
}

/// Dividing zero gives zero.
pub proof fn lemma_div_t_zero(b: int)
    requires
        b >= 1,
    ensures
        div_t(0, b) == 0,
{
    vstd::arithmetic::div_mod::lemma_div_of0(b);
}

/// The integer square root of a 128-bit value, by binary search.
pub fn isqrt_u128(n: u128) -> (r: u128)
    ensures
        r * r <= n,
        n < (r + 1) * (r + 1),
        r == sqrt_n(n as int),
{
    let mut lo: u128 = 0;
    let mut hi: u128 = if n < 0xffff_ffff_ffff_ffff {
        n + 1
    } else {
        0x1_0000_0000_0000_0000
    };
    proof {
        assert(n < hi * hi) by (nonlinear_arith)
            requires
                hi >= 1,
                n < 0xffff_ffff_ffff_ffff ==> hi == n + 1,
                n >= 0xffff_ffff_ffff_ffff ==> hi == 0x1_0000_0000_0000_0000,
        ;
    }
    while lo + 1 < hi
        invariant
            lo < hi,
            hi <= 0x1_0000_0000_0000_0000,
            lo * lo <= n,
            n < hi * hi,
        decreases hi - lo,
    {
        let mid: u128 = lo + (hi - lo) / 2;
        proof {
            assert(mid * mid < 0x1_0000_0000_0000_0000_0000_0000_0000_0000) by (nonlinear_arith)
                requires
                    mid < 0x1_0000_0000_0000_0000,
            ;
        }
        if mid * mid <= n {
            lo = mid;
        } else {
            hi = mid;
        }
    }
    proof {
        lemma_sqrt_unique(n as int, lo as int);
    }
    lo
}

} // verus!

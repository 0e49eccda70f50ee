//! Fixed-point scalar arithmetic.
//!
//! A fixed-point value is an `i64` counting micro-units: `FX_ONE`
//! (1 000 000) stands for the real number 1.0. Multiplication and
//! division truncate toward zero, exactly as the corresponding `i128`
//! integer computations do, and every executable operation is pinned to
//! its mathematical counterpart (`tdiv`, `fx_mul_s`, `lerp_s`,
//! `sqrt_floor`) by its contract.

use vstd::prelude::*;

verus! {

/// Fixed-point units in 1.0.
pub const FX_ONE: i64 = 1_000_000;

/// Absolute value of a mathematical integer.
pub open spec fn abs_i(a: int) -> int {
    if a >= 0 { a } else { -a }
}

/// Division truncating toward zero, for a positive divisor. This is what
/// Rust's `/` computes on integers; on non-negative operands it agrees
/// with mathematical (Euclidean) division.
pub open spec fn tdiv(a: int, b: int) -> int {
    if a >= 0 { a / b } else { -((-a) / b) }
}

/// Fixed-point product: `a * b` rescaled back to micro-units.
pub open spec fn fx_mul_s(a: int, b: int) -> int {
    tdiv(a * b, FX_ONE as int)
}

/// The widened product rescales back into `i64` range: the safety
/// condition of every fixed-point multiplication.
pub open spec fn mul_ok(a: int, b: int) -> bool {
    -(i64::MAX as int) * (FX_ONE as int) <= a * b <= (i64::MAX as int) * (FX_ONE as int)
}

/// Fixed-point linear interpolation `a + t * (b - a)`; `t` is a
/// fixed-point factor and is deliberately not clamped to `[0, 1]`.
pub open spec fn lerp_s(a: int, b: int, t: int) -> int {
    a + tdiv(t * (b - a), FX_ONE as int)
}

/// The square of an integer.
pub open spec fn sq(n: int) -> int {
    n * n
}

/// Integer square root, rounded down; 0 for negative arguments.
pub open spec fn sqrt_floor(n: int) -> int
    decreases n,
{
    if n <= 0 {
        0
    } else {
        let s = sqrt_floor(n - 1);
        if sq(s + 1) <= n {
            s + 1
        } else {
            s
        }
    }
}

/// Squares are non-negative.
pub proof fn lemma_sq_nonneg(c: int)
    by (nonlinear_arith)
    ensures
        sq(c) >= 0,
{
}

/// `sqrt_floor(n)` is the unique `r >= 0` with `r^2 <= n < (r+1)^2`.
pub proof fn lemma_sqrt_floor(n: int)
    requires
        n >= 0,
    ensures
        sqrt_floor(n) >= 0,
        sq(sqrt_floor(n)) <= n,
        n < sq(sqrt_floor(n) + 1),
    decreases n,
{
    if n > 0 {
        lemma_sqrt_floor(n - 1);
        let s = sqrt_floor(n - 1);
        if sq(s + 1) <= n {
            assert(sq(s + 1 + 1) > n) by (nonlinear_arith)
                requires
                    s >= 0,
                    n - 1 < sq(s + 1),
                    sq(s + 1) == (s + 1) * (s + 1),
                    sq(s + 2) == (s + 2) * (s + 2),
            ;
        }
    }
}

/// Any `r >= 0` sandwiched by `r^2 <= n < (r+1)^2` equals `sqrt_floor(n)`.
pub proof fn lemma_sqrt_floor_unique(n: int, r: int)
    requires
        r >= 0,
        sq(r) <= n,
        n < sq(r + 1),
    ensures
        sqrt_floor(n) == r,
{
    lemma_sqrt_floor(n);
    let s = sqrt_floor(n);
    if s < r {
        assert(sq(s + 1) <= sq(r)) by (nonlinear_arith)
            requires
                0 <= s,
                s + 1 <= r,
        ;
    }
    if s > r {
        assert(sq(r + 1) <= sq(s)) by (nonlinear_arith)
            requires
                0 <= r,
                r + 1 <= s,
        ;
    }
}

/// Monotone lower bound: a witness square below `n` bounds the root from below.
pub proof fn lemma_sqrt_floor_at_least(n: int, k: int)
    requires
        k >= 0,
        sq(k) <= n,
    ensures
        sqrt_floor(n) >= k,
{
    lemma_sqrt_floor(n);
    let s = sqrt_floor(n);
    if s < k {
        assert(sq(s + 1) <= sq(k)) by (nonlinear_arith)
            requires
                0 <= s,
                s + 1 <= k,
        ;
    }
}

/// Monotone upper bound: `n` below a square bounds the root from above.
pub proof fn lemma_sqrt_floor_at_most(n: int, k: int)
    requires
        n >= 0,
        k >= 0,
        n < sq(k + 1),
    ensures
        sqrt_floor(n) <= k,
{
    lemma_sqrt_floor(n);
    let s = sqrt_floor(n);
    if s > k {
        assert(sq(k + 1) <= sq(s)) by (nonlinear_arith)
            requires
                0 <= k,
                k + 1 <= s,
        ;
    }
}

/// Fundamental facts about truncating division by a positive divisor:
/// sign preservation, antisymmetry in the numerator, and the remainder
/// sandwich `|q|*b <= |a| < (|q|+1)*b`.
pub proof fn lemma_tdiv(a: int, b: int)
    requires
        b > 0,
    ensures
        a >= 0 ==> tdiv(a, b) >= 0,
        a <= 0 ==> tdiv(a, b) <= 0,
        a == 0 ==> tdiv(a, b) == 0,
        tdiv(-a, b) == -tdiv(a, b),
        abs_i(tdiv(a, b)) * b <= abs_i(a),
        abs_i(a) < (abs_i(tdiv(a, b)) + 1) * b,
{
    let m = abs_i(a);
    vstd::arithmetic::div_mod::lemma_fundamental_div_mod(m, b);
    vstd::arithmetic::div_mod::lemma_mod_bound(m, b);
    vstd::arithmetic::div_mod::lemma_div_pos_is_pos(m, b);
    let q = m / b;
    assert(q * b <= m && m < (q + 1) * b) by (nonlinear_arith)
        requires
            m == b * q + m % b,
            0 <= m % b < b,
    ;
    if a >= 0 {
        assert(tdiv(a, b) == q);
    } else {
        assert(tdiv(a, b) == -q);
    }
    assert(abs_i(tdiv(a, b)) == q);
    if a == 0 {
        assert(q == 0) by (nonlinear_arith)
            requires
                q * b <= 0,
                q >= 0,
                b > 0,
        ;
    }
}

/// Scaling the remainder sandwich: a bound `|a| <= c * b` on the
/// numerator caps the quotient magnitude at `c`.
pub proof fn lemma_tdiv_bound(a: int, b: int, c: int)
    requires
        b > 0,
        c >= 0,
        abs_i(a) <= c * b,
    ensures
        abs_i(tdiv(a, b)) <= c,
{
    lemma_tdiv(a, b);
    let q = abs_i(tdiv(a, b));
    if q > c {
        assert((c + 1) * b <= q * b) by (nonlinear_arith)
            requires
                b > 0,
                c + 1 <= q,
        ;
        assert(c * b + b <= q * b) by (nonlinear_arith)
            requires
                (c + 1) * b <= q * b,
        ;
    }
}

/// Dividing by `b >= 1` does not increase the magnitude.
pub proof fn lemma_tdiv_shrinks(a: int, b: int)
    requires
        b >= 1,
    ensures
        abs_i(tdiv(a, b)) <= abs_i(a),
{
    lemma_tdiv(a, b);
    assert(abs_i(tdiv(a, b)) * 1 <= abs_i(tdiv(a, b)) * b) by (nonlinear_arith)
        requires
            b >= 1,
            abs_i(tdiv(a, b)) >= 0,
    ;
}

/// An interpolation factor `0 <= t <= FX_ONE` keeps `tdiv(t * d, FX_ONE)`
/// between 0 and `d`: the fixed-point lerp stays inside the hull of its
/// endpoints.
pub proof fn lemma_tdiv_hull(t: int, d: int, s: int)
    requires
        s > 0,
        0 <= t <= s,
    ensures
        d >= 0 ==> 0 <= tdiv(t * d, s) <= d,
        d < 0 ==> d <= tdiv(t * d, s) <= 0,
{
    let p = t * d;
    lemma_tdiv(p, s);
    if d >= 0 {
        assert(0 <= t * d && t * d <= s * d) by (nonlinear_arith)
            requires
                0 <= t <= s,
                d >= 0,
        ;
        vstd::arithmetic::div_mod::lemma_div_is_ordered(p, s * d, s);
        vstd::arithmetic::div_mod::lemma_div_multiples_vanish(d, s);
        assert(s * d == d * s) by (nonlinear_arith);
    } else {
        assert(s * (-d) >= -(t * d) && -(t * d) >= 0) by (nonlinear_arith)
            requires
                0 <= t <= s,
                d < 0,
        ;
        vstd::arithmetic::div_mod::lemma_div_is_ordered(-p, s * (-d), s);
        vstd::arithmetic::div_mod::lemma_div_multiples_vanish(-d, s);
        assert(s * (-d) == (-d) * s) by (nonlinear_arith);
        assert(tdiv(p, s) == -((-p) / s));
    }
}

/// Truncating division of an `i128` by a positive divisor, computed on
/// unsigned magnitudes so that its value is exactly `tdiv`.
fn tdiv_i128(a: i128, b: i128) -> (r: i128)
    requires
        b > 0,
        a != i128::MIN,
    ensures
        r as int == tdiv(a as int, b as int),
{
    proof {
        lemma_tdiv(a as int, b as int);
    }
    if a >= 0 {
        let q: u128 = (a as u128) / (b as u128);
        proof {
            lemma_tdiv_shrinks(a as int, b as int);
        }
        q as i128
    } else {
        let m: i128 = -a;
        let q: u128 = (m as u128) / (b as u128);
        proof {
            lemma_tdiv_shrinks(a as int, b as int);
        }
        -(q as i128)
    }
}

/// `tdiv(a * b, d)` for `i64` operands, with the product widened to
/// `i128` so it cannot overflow; the result is required to fit `i64`.
pub fn muldiv(a: i64, b: i64, d: i64) -> (r: i64)
    requires
        d > 0,
        -(i64::MAX as int) * d <= a * b <= (i64::MAX as int) * d,
    ensures
        r as int == tdiv(a * b, d as int),
        abs_i(r as int) <= i64::MAX as int,
{
    proof {
        assert((a as int) * (b as int) < i128::MAX && (a as int) * (b as int) > i128::MIN)
            by (nonlinear_arith)
            requires
                -0x8000_0000_0000_0000 <= a as int <= 0x7fff_ffff_ffff_ffff,
                -0x8000_0000_0000_0000 <= b as int <= 0x7fff_ffff_ffff_ffff,
        ;
    }
    let p: i128 = (a as i128) * (b as i128);
    proof {
        lemma_tdiv_bound(p as int, d as int, i64::MAX as int);
    }
    let q: i128 = tdiv_i128(p, d as i128);
    q as i64
}

/// Fixed-point multiplication: `tdiv(a * b, FX_ONE)`.
pub fn fx_mul(a: i64, b: i64) -> (r: i64)
    requires
        mul_ok(a as int, b as int),
    ensures
        r as int == fx_mul_s(a as int, b as int),
{
    muldiv(a, b, FX_ONE)
}

/// Magnitude bounds multiply through a product.
pub proof fn lemma_abs_mul(a: int, b: int, ba: int, bb: int)
    by (nonlinear_arith)
    requires
        abs_i(a) <= ba,
        abs_i(b) <= bb,
    ensures
        abs_i(a * b) <= ba * bb,
{
}

/// A product bounded by `c * FX_ONE` rescales to a result bounded by
/// `c`, and is safe to compute.
pub proof fn lemma_fx_mul_s_le(a: int, b: int, c: int)
    requires
        0 <= c <= i64::MAX as int,
        abs_i(a * b) <= c * (FX_ONE as int),
    ensures
        abs_i(fx_mul_s(a, b)) <= c,
        mul_ok(a, b),
{
    lemma_tdiv_bound(a * b, FX_ONE as int, c);
    assert(c * (FX_ONE as int) <= (i64::MAX as int) * (FX_ONE as int)) by (nonlinear_arith)
        requires
            c <= i64::MAX as int,
    ;
}

/// Fixed-point lerp `a + t * (b - a)`, the smoothing step of the input
/// shaper and the third-person camera. `t` is not clamped to `[0, 1]`,
/// so a large factor overshoots the target, exactly as `lerp_s` says.
pub fn fx_lerp(a: i64, b: i64, t: i64) -> (r: i64)
    requires
        -1_000_000_000_000_000 <= a <= 1_000_000_000_000_000,
        -1_000_000_000_000_000 <= b <= 1_000_000_000_000_000,
        0 <= t <= 1_000_000_000,
    ensures
        r as int == lerp_s(a as int, b as int, t as int),
{
    let d: i64 = b - a;
    proof {
        assert(-(i64::MAX as int) * (FX_ONE as int) <= (t as int) * (d as int)
            <= (i64::MAX as int) * (FX_ONE as int)) by (nonlinear_arith)
            requires
                0 <= t as int <= 1_000_000_000,
                -2_000_000_000_000_000 <= d as int <= 2_000_000_000_000_000,
        ;
        assert(abs_i((t as int) * (d as int)) <= 2_000_000_000_000_000_000 * (FX_ONE as int))
            by (nonlinear_arith)
            requires
                0 <= t as int <= 1_000_000_000,
                -2_000_000_000_000_000 <= d as int <= 2_000_000_000_000_000,
        ;
        lemma_tdiv_bound((t as int) * (d as int), FX_ONE as int, 2_000_000_000_000_000_000);
    }
    let step: i64 = muldiv(t, d, FX_ONE);
    a + step
}

/// Integer square root of a `u128`, by binary search.
pub fn isqrt(n: u128) -> (r: u64)
    requires
        (n as int) < 0x100_0000_0000_0000_0000_0000_0000_0000int,
    ensures
        r as int == sqrt_floor(n as int),
        sq(r as int) <= n as int,
        (n as int) < sq(r as int + 1),
{
    let mut lo: u128 = 0;
    let mut hi: u128 = 0x1000_0000_0000_0000;
    proof {
        assert(sq(hi as int) > n as int) by (nonlinear_arith)
            requires
                hi as int == 0x1000_0000_0000_0000,
                (n as int) < 0x100_0000_0000_0000_0000_0000_0000_0000int,
        ;
    }
    while lo + 1 < hi
        invariant
            lo < hi,
            hi <= 0x1000_0000_0000_0000,
            sq(lo as int) <= n as int,
            (n as int) < sq(hi as int),
        decreases hi - lo,
    {
        let mid: u128 = lo + (hi - lo) / 2;
        proof {
            assert(mid * mid <= u128::MAX) by (nonlinear_arith)
                requires
                    mid <= 0x1000_0000_0000_0000,
            ;
        }
        if mid * mid <= n {
            lo = mid;
        } else {
            hi = mid;
        }
    }
    proof {
        lemma_sqrt_floor_unique(n as int, lo as int);
    }
    lo as u64
}

} // verus!

//! Fixed-point 3D vectors.
//!
//! `Vec3Fx` holds three fixed-point components (micro-units, see
//! `crate::fx`). Its mathematical model is `V3`, the same triple over
//! unbounded integers; every executable operation is pinned to a spec
//! function on `V3`. Degenerate normalizations (zero-length input) yield
//! the zero vector instead of an invalid direction, the policy the
//! simulation uses wherever a direction is undefined.

use vstd::prelude::*;

use crate::fx::{
    FX_ONE, abs_i, fx_mul_s, isqrt, lemma_sqrt_floor, lemma_tdiv_bound, muldiv, sq, sqrt_floor,
    tdiv,
};

verus! {

/// A fixed-point vector: each component counts micro-units.
#[derive(Clone, Copy, PartialEq, Eq, Structural, Debug)]
pub struct Vec3Fx {
    pub x: i64,
    pub y: i64,
    pub z: i64,
}

/// The mathematical model of a `Vec3Fx`: the same components as
/// unbounded integers.
pub struct V3 {
    pub x: int,
    pub y: int,
    pub z: int,
}

impl View for Vec3Fx {
    type V = V3;

    open spec fn view(&self) -> V3 {
        V3 { x: self.x as int, y: self.y as int, z: self.z as int }
    }
}

/// All three components at most `b` in magnitude.
pub open spec fn bounded_v(a: V3, b: int) -> bool {
    abs_i(a.x) <= b && abs_i(a.y) <= b && abs_i(a.z) <= b
}

pub open spec fn zero_v() -> V3 {
    V3 { x: 0, y: 0, z: 0 }
}

pub open spec fn add_v(a: V3, b: V3) -> V3 {
    V3 { x: a.x + b.x, y: a.y + b.y, z: a.z + b.z }
}

pub open spec fn sub_v(a: V3, b: V3) -> V3 {
    V3 { x: a.x - b.x, y: a.y - b.y, z: a.z - b.z }
}

pub open spec fn neg_v(a: V3) -> V3 {
    V3 { x: -a.x, y: -a.y, z: -a.z }
}

/// Componentwise fixed-point scaling by the scalar `k`.
pub open spec fn scale_v(a: V3, k: int) -> V3 {
    V3 { x: fx_mul_s(a.x, k), y: fx_mul_s(a.y, k), z: fx_mul_s(a.z, k) }
}

/// Componentwise division by a plain integer count (averaging).
pub open spec fn divn_v(a: V3, n: int) -> V3 {
    V3 { x: tdiv(a.x, n), y: tdiv(a.y, n), z: tdiv(a.z, n) }
}

/// Componentwise division by a fixed-point scalar `d`.
pub open spec fn div_fx_v(a: V3, d: int) -> V3 {
    V3 {
        x: tdiv(a.x * (FX_ONE as int), d),
        y: tdiv(a.y * (FX_ONE as int), d),
        z: tdiv(a.z * (FX_ONE as int), d),
    }
}

/// Sum of the squared components (in squared micro-units).
pub open spec fn sumsq_v(a: V3) -> int {
    sq(a.x) + sq(a.y) + sq(a.z)
}

/// Euclidean length, rounded down to a whole number of micro-units.
pub open spec fn norm_v(a: V3) -> int {
    sqrt_floor(sumsq_v(a))
}

/// The unit vector in the direction of `a` (fixed-point, length close to
/// `FX_ONE`), or zero when `a` has zero length.
pub open spec fn normalize_v(a: V3) -> V3 {
    if norm_v(a) == 0 {
        zero_v()
    } else {
        div_fx_v(a, norm_v(a))
    }
}

/// Distance between two points.
pub open spec fn dist_v(a: V3, b: V3) -> int {
    norm_v(sub_v(a, b))
}

/// `a` rescaled to length at most `cap`; unchanged when already within.
pub open spec fn clamp_mag_v(a: V3, cap: int) -> V3 {
    if norm_v(a) > cap {
        V3 {
            x: tdiv(a.x * cap, norm_v(a)),
            y: tdiv(a.y * cap, norm_v(a)),
            z: tdiv(a.z * cap, norm_v(a)),
        }
    } else {
        a
    }
}

/// Componentwise fixed-point lerp toward `b` by factor `t`.
pub open spec fn lerp_v(a: V3, b: V3, t: int) -> V3 {
    V3 {
        x: crate::fx::lerp_s(a.x, b.x, t),
        y: crate::fx::lerp_s(a.y, b.y, t),
        z: crate::fx::lerp_s(a.z, b.z, t),
    }
}

/// Each component is bounded by the vector's length: its square is
/// bounded by the sum of squares.
pub proof fn lemma_comp_le_norm(c: int, m: int)
    requires
        sq(c) <= m,
    ensures
        abs_i(c) <= sqrt_floor(m),
{
    crate::fx::lemma_sq_nonneg(c);
    lemma_sqrt_floor(m);
    let s = sqrt_floor(m);
    if abs_i(c) > s {
        assert(sq(s + 1) <= sq(abs_i(c))) by (nonlinear_arith)
            requires
                0 <= s,
                s + 1 <= abs_i(c),
        ;
        assert(sq(abs_i(c)) == sq(c)) by (nonlinear_arith);
    }
}

/// A vector of length zero is the zero vector (so skipping the
/// normalize-and-rescale step for it leaves exactly zero).
pub proof fn lemma_norm_zero(a: V3)
    requires
        norm_v(a) == 0,
    ensures
        a == zero_v(),
{
    crate::fx::lemma_sq_nonneg(a.x);
    crate::fx::lemma_sq_nonneg(a.y);
    crate::fx::lemma_sq_nonneg(a.z);
    lemma_sqrt_floor(sumsq_v(a));
    assert(sq(1) == 1) by (nonlinear_arith);
    assert(a.x == 0 && a.y == 0 && a.z == 0) by (nonlinear_arith)
        requires
            sq(a.x) == a.x * a.x,
            sq(a.y) == a.y * a.y,
            sq(a.z) == a.z * a.z,
            sq(a.x) == 0,
            sq(a.y) == 0,
            sq(a.z) == 0,
    ;
}

/// A magnitude clamp really bounds every component by the cap.
pub proof fn lemma_clamp_mag_bounded(a: V3, cap: int)
    requires
        0 <= cap,
    ensures
        bounded_v(clamp_mag_v(a, cap), cap),
{
    crate::fx::lemma_sq_nonneg(a.x);
    crate::fx::lemma_sq_nonneg(a.y);
    crate::fx::lemma_sq_nonneg(a.z);
    lemma_sqrt_floor(sumsq_v(a));
    lemma_comp_le_norm(a.x, sumsq_v(a));
    lemma_comp_le_norm(a.y, sumsq_v(a));
    lemma_comp_le_norm(a.z, sumsq_v(a));
    let n = norm_v(a);
    if n > cap {
        lemma_clamp_comp(a.x, cap, n);
        lemma_clamp_comp(a.y, cap, n);
        lemma_clamp_comp(a.z, cap, n);
    }
}

/// One clamped component is within the cap.
proof fn lemma_clamp_comp(c: int, cap: int, n: int)
    requires
        n >= 1,
        0 <= cap,
        abs_i(c) <= n,
    ensures
        abs_i(tdiv(c * cap, n)) <= cap,
{
    crate::fx::lemma_abs_mul(c, cap, n, cap);
    assert(n * cap == cap * n) by (nonlinear_arith);
    lemma_tdiv_bound(c * cap, n, cap);
}

impl Vec3Fx {
    /// The zero vector.
    pub fn zero() -> (r: Vec3Fx)
        ensures
            r@ == zero_v(),
    {
        Vec3Fx { x: 0, y: 0, z: 0 }
    }

    pub fn new(x: i64, y: i64, z: i64) -> (r: Vec3Fx)
        ensures
            r@ == (V3 { x: x as int, y: y as int, z: z as int }),
    {
        Vec3Fx { x, y, z }
    }

    pub fn add(self, o: Vec3Fx) -> (r: Vec3Fx)
        requires
            bounded_v(self@, 4_000_000_000_000_000_000),
            bounded_v(o@, 4_000_000_000_000_000_000),
        ensures
            r@ == add_v(self@, o@),
    {
        Vec3Fx { x: self.x + o.x, y: self.y + o.y, z: self.z + o.z }
    }

    pub fn sub(self, o: Vec3Fx) -> (r: Vec3Fx)
        requires
            bounded_v(self@, 4_000_000_000_000_000_000),
            bounded_v(o@, 4_000_000_000_000_000_000),
        ensures
            r@ == sub_v(self@, o@),
    {
        Vec3Fx { x: self.x - o.x, y: self.y - o.y, z: self.z - o.z }
    }

    pub fn neg(self) -> (r: Vec3Fx)
        requires
            bounded_v(self@, 4_000_000_000_000_000_000),
        ensures
            r@ == neg_v(self@),
    {
        Vec3Fx { x: -self.x, y: -self.y, z: -self.z }
    }

    /// Componentwise fixed-point scaling by `k`.
    pub fn scale_fx(self, k: i64) -> (r: Vec3Fx)
        requires
            crate::fx::mul_ok(self@.x, k as int),
            crate::fx::mul_ok(self@.y, k as int),
            crate::fx::mul_ok(self@.z, k as int),
        ensures
            r@ == scale_v(self@, k as int),
    {
        Vec3Fx {
            x: muldiv(self.x, k, FX_ONE),
            y: muldiv(self.y, k, FX_ONE),
            z: muldiv(self.z, k, FX_ONE),
        }
    }

    /// Componentwise division by a positive count (averaging an
    /// accumulator over its neighbors).
    pub fn div_count(self, n: i64) -> (r: Vec3Fx)
        requires
            n >= 1,
            bounded_v(self@, 0x7fff_ffff_ffff_ffff),
        ensures
            r@ == divn_v(self@, n as int),
    {
        proof {
            lemma_divisor_ok(self@.x, n as int);
            lemma_divisor_ok(self@.y, n as int);
            lemma_divisor_ok(self@.z, n as int);
        }
        Vec3Fx {
            x: muldiv(self.x, 1, n),
            y: muldiv(self.y, 1, n),
            z: muldiv(self.z, 1, n),
        }
    }

    /// Length, rounded down to micro-units.
    pub fn norm(self) -> (r: i64)
        requires
            bounded_v(self@, 100_000_000_000_000_000),
        ensures
            r as int == norm_v(self@),
            0 <= r as int <= 200_000_000_000_000_000,
    {
        let n: u128 = sumsq_exec(self);
        let s: u64 = isqrt(n);
        proof {
            crate::fx::lemma_sqrt_floor_at_most(
                n as int,
                200_000_000_000_000_000,
            );
        }
        s as i64
    }

    /// The unit direction of `self`, or zero for a zero-length vector.
    pub fn normalize(self) -> (r: Vec3Fx)
        requires
            bounded_v(self@, 100_000_000_000_000_000),
        ensures
            r@ == normalize_v(self@),
            bounded_v(r@, FX_ONE as int),
    {
        let n: i64 = self.norm();
        if n == 0 {
            Vec3Fx::zero()
        } else {
            proof {
                crate::fx::lemma_sq_nonneg(self@.x);
                crate::fx::lemma_sq_nonneg(self@.y);
                crate::fx::lemma_sq_nonneg(self@.z);
                lemma_comp_le_norm(self@.x, sumsq_v(self@));
                lemma_comp_le_norm(self@.y, sumsq_v(self@));
                lemma_comp_le_norm(self@.z, sumsq_v(self@));
                lemma_unit_ok(self@.x, n as int);
                lemma_unit_ok(self@.y, n as int);
                lemma_unit_ok(self@.z, n as int);
                lemma_unit_comp_bound(self@.x, n as int);
                lemma_unit_comp_bound(self@.y, n as int);
                lemma_unit_comp_bound(self@.z, n as int);
            }
            Vec3Fx {
                x: muldiv(self.x, FX_ONE, n),
                y: muldiv(self.y, FX_ONE, n),
                z: muldiv(self.z, FX_ONE, n),
            }
        }
    }

    /// Componentwise division by a positive fixed-point scalar.
    pub fn div_fx(self, d: i64) -> (r: Vec3Fx)
        requires
            bounded_v(self@, 1_000_000_000_000),
            d >= 1,
        ensures
            r@ == div_fx_v(self@, d as int),
            bounded_v(self@, FX_ONE as int) ==> bounded_v(r@, 1_000_000_000_000),
    {
        proof {
            lemma_div_fx_ok(self@.x, d as int);
            lemma_div_fx_ok(self@.y, d as int);
            lemma_div_fx_ok(self@.z, d as int);
            if bounded_v(self@, FX_ONE as int) {
                lemma_div_fx_small(self@.x, d as int);
                lemma_div_fx_small(self@.y, d as int);
                lemma_div_fx_small(self@.z, d as int);
            }
        }
        Vec3Fx {
            x: muldiv(self.x, FX_ONE, d),
            y: muldiv(self.y, FX_ONE, d),
            z: muldiv(self.z, FX_ONE, d),
        }
    }

    /// Distance to another point.
    pub fn dist(self, o: Vec3Fx) -> (r: i64)
        requires
            bounded_v(self@, 50_000_000_000_000_000),
            bounded_v(o@, 50_000_000_000_000_000),
        ensures
            r as int == dist_v(self@, o@),
            0 <= r as int <= 200_000_000_000_000_000,
    {
        self.sub(o).norm()
    }

    /// Rescale to length at most `cap` (a force-magnitude clamp);
    /// vectors already within the cap pass through unchanged.
    pub fn clamp_mag(self, cap: i64) -> (r: Vec3Fx)
        requires
            bounded_v(self@, 100_000_000_000_000_000),
            0 <= cap,
        ensures
            r@ == clamp_mag_v(self@, cap as int),
    {
        let n: i64 = self.norm();
        if n > cap {
            proof {
                crate::fx::lemma_sq_nonneg(self@.x);
                crate::fx::lemma_sq_nonneg(self@.y);
                crate::fx::lemma_sq_nonneg(self@.z);
                lemma_comp_le_norm(self@.x, sumsq_v(self@));
                lemma_comp_le_norm(self@.y, sumsq_v(self@));
                lemma_comp_le_norm(self@.z, sumsq_v(self@));
                lemma_clamp_ok(self@.x, cap as int, n as int);
                lemma_clamp_ok(self@.y, cap as int, n as int);
                lemma_clamp_ok(self@.z, cap as int, n as int);
            }
            Vec3Fx {
                x: muldiv(self.x, cap, n),
                y: muldiv(self.y, cap, n),
                z: muldiv(self.z, cap, n),
            }
        } else {
            self
        }
    }

    /// Componentwise lerp toward `b` by fixed-point factor `t`.
    pub fn lerp(self, b: Vec3Fx, t: i64) -> (r: Vec3Fx)
        requires
            bounded_v(self@, 1_000_000_000_000_000),
            bounded_v(b@, 1_000_000_000_000_000),
            0 <= t <= 1_000_000_000,
        ensures
            r@ == lerp_v(self@, b@, t as int),
    {
        Vec3Fx {
            x: crate::fx::fx_lerp(self.x, b.x, t),
            y: crate::fx::fx_lerp(self.y, b.y, t),
            z: crate::fx::fx_lerp(self.z, b.z, t),
        }
    }
}

/// Exact sum of squared components, widened so it cannot overflow.
fn sumsq_exec(v: Vec3Fx) -> (r: u128)
    requires
        bounded_v(v@, 100_000_000_000_000_000),
    ensures
        r as int == sumsq_v(v@),
        r as int <= 30_000_000_000_000_000_000_000_000_000_000_000,
{
    proof {
        lemma_sq_cast_bound(v@.x);
        lemma_sq_cast_bound(v@.y);
        lemma_sq_cast_bound(v@.z);
    }
    let xx: u128 = ((v.x as i128) * (v.x as i128)) as u128;
    let yy: u128 = ((v.y as i128) * (v.y as i128)) as u128;
    let zz: u128 = ((v.z as i128) * (v.z as i128)) as u128;
    xx + yy + zz
}

/// A square of a component bounded by 1e17 fits comfortably in `i128`
/// and `u128`.
proof fn lemma_sq_cast_bound(c: int)
    by (nonlinear_arith)
    requires
        abs_i(c) <= 100_000_000_000_000_000,
    ensures
        0 <= sq(c) <= 10_000_000_000_000_000_000_000_000_000_000_000,
{
}

/// `muldiv(c, 1, n)` is safe for any `i64` component and positive count.
proof fn lemma_divisor_ok(c: int, n: int)
    by (nonlinear_arith)
    requires
        n >= 1,
        abs_i(c) <= 0x7fff_ffff_ffff_ffff,
    ensures
        -(i64::MAX as int) * n <= c * 1 <= (i64::MAX as int) * n,
{
}

/// `muldiv(c, FX_ONE, n)` is safe when `|c| <= n` (a component of a
/// vector whose length is `n`).
proof fn lemma_unit_ok(c: int, n: int)
    by (nonlinear_arith)
    requires
        n >= 1,
        abs_i(c) <= n,
    ensures
        -(i64::MAX as int) * n <= c * (FX_ONE as int) <= (i64::MAX as int) * n,
{
}

/// A component of a vector of length `n`, normalized, is at most one
/// unit (`FX_ONE`) in magnitude.
pub proof fn lemma_unit_comp_bound(c: int, n: int)
    requires
        n >= 1,
        abs_i(c) <= n,
    ensures
        abs_i(tdiv(c * (FX_ONE as int), n)) <= FX_ONE as int,
{
    assert(abs_i(c * (FX_ONE as int)) <= (FX_ONE as int) * n) by (nonlinear_arith)
        requires
            n >= 1,
            abs_i(c) <= n,
    ;
    lemma_tdiv_bound(c * (FX_ONE as int), n, FX_ONE as int);
}

/// `muldiv(c, FX_ONE, d)` is safe for a 1e12-bounded component and any
/// positive fixed-point divisor.
proof fn lemma_div_fx_ok(c: int, d: int)
    by (nonlinear_arith)
    requires
        d >= 1,
        abs_i(c) <= 1_000_000_000_000,
    ensures
        -(i64::MAX as int) * d <= c * (FX_ONE as int) <= (i64::MAX as int) * d,
{
}

/// Dividing a unit-vector component by any positive fixed-point scalar
/// keeps it within 1e12 (the `d = 1` micro-unit worst case).
proof fn lemma_div_fx_small(c: int, d: int)
    requires
        d >= 1,
        abs_i(c) <= FX_ONE as int,
    ensures
        abs_i(tdiv(c * (FX_ONE as int), d)) <= 1_000_000_000_000,
{
    crate::fx::lemma_abs_mul(c, FX_ONE as int, FX_ONE as int, FX_ONE as int);
    assert(1_000_000_000_000 * 1 <= 1_000_000_000_000 * d) by (nonlinear_arith)
        requires
            d >= 1,
    ;
    lemma_tdiv_bound(c * (FX_ONE as int), d, 1_000_000_000_000);
}

/// `muldiv(c, cap, n)` is safe when `|c| <= n` and the cap fits `i64`.
proof fn lemma_clamp_ok(c: int, cap: int, n: int)
    by (nonlinear_arith)
    requires
        n >= 1,
        0 <= cap <= 0x7fff_ffff_ffff_ffff,
        abs_i(c) <= n,
    ensures
        -(i64::MAX as int) * n <= c * cap <= (i64::MAX as int) * n,
{
}

} // verus!

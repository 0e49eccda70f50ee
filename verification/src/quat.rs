//! Fixed-point quaternions.
//!
//! `QuatFx` holds four fixed-point components (micro-units); the unit
//! quaternion 1 is `(0, 0, 0, FX_ONE)`. The model is `Q4`, the same
//! quadruple over unbounded integers. Axis rotations are built from
//! polynomial approximations of sine and cosine of the half angle, the
//! Hamilton product composes rotations, and `lemma_renorm_q_unit` shows
//! that renormalizing any quaternion of length at least `NORM_FLOOR`
//! yields a quaternion of length within 6 micro-units of 1.0 — the
//! orientation unit invariant of the flight dynamics.

use vstd::prelude::*;

use crate::fx::{
    FX_ONE, abs_i, fx_mul_s, isqrt, lemma_sq_nonneg, lemma_sqrt_floor, lemma_sqrt_floor_at_least,
    lemma_sqrt_floor_at_most, lemma_tdiv, lemma_tdiv_bound, lemma_tdiv_shrinks, muldiv, fx_mul,
    sq, sqrt_floor, tdiv,
};
use crate::vec3::{
    V3, Vec3Fx, add_v, bounded_v, lemma_comp_le_norm, lemma_unit_comp_bound, scale_v,
};

verus! {

/// Below this length (half a unit) a quaternion is considered degenerate
/// and is not renormalized; the caller keeps its previous orientation.
pub const NORM_FLOOR: i64 = 500_000;

/// A fixed-point quaternion `x*i + y*j + z*k + w`.
#[derive(Clone, Copy, PartialEq, Eq, Structural, Debug)]
pub struct QuatFx {
    pub x: i64,
    pub y: i64,
    pub z: i64,
    pub w: i64,
}

/// The mathematical model of a `QuatFx`.
pub struct Q4 {
    pub x: int,
    pub y: int,
    pub z: int,
    pub w: int,
}

impl View for QuatFx {
    type V = Q4;

    open spec fn view(&self) -> Q4 {
        Q4 { x: self.x as int, y: self.y as int, z: self.z as int, w: self.w as int }
    }
}

/// All four components at most `b` in magnitude.
pub open spec fn bounded_q(q: Q4, b: int) -> bool {
    abs_i(q.x) <= b && abs_i(q.y) <= b && abs_i(q.z) <= b && abs_i(q.w) <= b
}

/// The identity rotation.
pub open spec fn identity_q() -> Q4 {
    Q4 { x: 0, y: 0, z: 0, w: FX_ONE as int }
}

/// Sum of the squared components.
pub open spec fn sumsq_q(q: Q4) -> int {
    sq(q.x) + sq(q.y) + sq(q.z) + sq(q.w)
}

/// Quaternion length, rounded down to micro-units.
pub open spec fn norm_q(q: Q4) -> int {
    sqrt_floor(sumsq_q(q))
}

/// The Hamilton product in fixed point: composition of rotations,
/// the left factor applied after the right.
pub open spec fn mul_q(a: Q4, b: Q4) -> Q4 {
    Q4 {
        x: fx_mul_s(a.w, b.x) + fx_mul_s(a.x, b.w) + fx_mul_s(a.y, b.z) - fx_mul_s(a.z, b.y),
        y: fx_mul_s(a.w, b.y) - fx_mul_s(a.x, b.z) + fx_mul_s(a.y, b.w) + fx_mul_s(a.z, b.x),
        z: fx_mul_s(a.w, b.z) + fx_mul_s(a.x, b.y) - fx_mul_s(a.y, b.x) + fx_mul_s(a.z, b.w),
        w: fx_mul_s(a.w, b.w) - fx_mul_s(a.x, b.x) - fx_mul_s(a.y, b.y) - fx_mul_s(a.z, b.z),
    }
}

/// Each component divided by the length (meaningful when the length is
/// at least 1).
pub open spec fn normalize_q(q: Q4) -> Q4 {
    Q4 {
        x: tdiv(q.x * (FX_ONE as int), norm_q(q)),
        y: tdiv(q.y * (FX_ONE as int), norm_q(q)),
        z: tdiv(q.z * (FX_ONE as int), norm_q(q)),
        w: tdiv(q.w * (FX_ONE as int), norm_q(q)),
    }
}

/// Fixed-point sine by odd polynomial `t - t^3/6 + t^5/120`, accurate
/// for the small per-tick rotation angles of the flight dynamics.
pub open spec fn sin_s(t: int) -> int {
    let t2 = fx_mul_s(t, t);
    let t3 = fx_mul_s(t2, t);
    let t5 = fx_mul_s(t3, t2);
    t - tdiv(t3, 6) + tdiv(t5, 120)
}

/// Fixed-point cosine by even polynomial `1 - t^2/2 + t^4/24`.
pub open spec fn cos_s(t: int) -> int {
    let t2 = fx_mul_s(t, t);
    let t4 = fx_mul_s(t2, t2);
    (FX_ONE as int) - tdiv(t2, 2) + tdiv(t4, 24)
}

/// Rotation by `angle` about the world Y axis:
/// `(0, sin(angle/2), 0, cos(angle/2))`.
pub open spec fn rot_y_s(angle: int) -> Q4 {
    Q4 { x: 0, y: sin_s(tdiv(angle, 2)), z: 0, w: cos_s(tdiv(angle, 2)) }
}

/// Rotation by `angle` about the X axis:
/// `(sin(angle/2), 0, 0, cos(angle/2))`.
pub open spec fn rot_x_s(angle: int) -> Q4 {
    Q4 { x: sin_s(tdiv(angle, 2)), y: 0, z: 0, w: cos_s(tdiv(angle, 2)) }
}

/// Rotation by `angle` about the Z axis:
/// `(0, 0, sin(angle/2), cos(angle/2))`.
pub open spec fn rot_z_s(angle: int) -> Q4 {
    Q4 { x: 0, y: 0, z: sin_s(tdiv(angle, 2)), w: cos_s(tdiv(angle, 2)) }
}

/// Fixed-point cross product (each product rescaled once).
pub open spec fn cross_s(a: V3, b: V3) -> V3 {
    V3 {
        x: fx_mul_s(a.y, b.z) - fx_mul_s(a.z, b.y),
        y: fx_mul_s(a.z, b.x) - fx_mul_s(a.x, b.z),
        z: fx_mul_s(a.x, b.y) - fx_mul_s(a.y, b.x),
    }
}

/// The vector part of a quaternion.
pub open spec fn vec_part(q: Q4) -> V3 {
    V3 { x: q.x, y: q.y, z: q.z }
}

/// A vector rotated by a (near-unit) quaternion:
/// `v + w*t + cross(qv, t)` with `t = 2 * cross(qv, v)`.
pub open spec fn rotate_s(q: Q4, v: V3) -> V3 {
    let qv = vec_part(q);
    let c = cross_s(qv, v);
    let t = V3 { x: 2 * c.x, y: 2 * c.y, z: 2 * c.z };
    add_v(add_v(v, scale_v(t, q.w)), cross_s(qv, t))
}

/// A quaternion whose length is within 6 micro-units of 1.0: the
/// orientation unit invariant (tolerance 6e-6, inside the 1e-5 budget).
pub open spec fn unit_q(q: Q4) -> bool {
    (FX_ONE as int) - 6 <= norm_q(q) <= (FX_ONE as int) + 6
}

/// A near-unit quaternion has all components within `FX_ONE + 6`.
pub proof fn lemma_unit_q_bounded(q: Q4)
    requires
        unit_q(q),
    ensures
        bounded_q(q, (FX_ONE as int) + 6),
{
    lemma_sq_nonneg(q.x);
    lemma_sq_nonneg(q.y);
    lemma_sq_nonneg(q.z);
    lemma_sq_nonneg(q.w);
    lemma_comp_le_norm(q.x, sumsq_q(q));
    lemma_comp_le_norm(q.y, sumsq_q(q));
    lemma_comp_le_norm(q.z, sumsq_q(q));
    lemma_comp_le_norm(q.w, sumsq_q(q));
}

/// Per-component accuracy of renormalization: `cp = tdiv(c*S, n)` times
/// `n` lands within `n` of `c*S`, so `n^2 * cp^2` is within
/// `2*S*n^2 + n^2` of `c^2 * S^2`.
proof fn lemma_comp_renorm(c: int, n: int)
    requires
        n >= 1,
        abs_i(c) <= n,
    ensures
        n * n * sq(tdiv(c * (FX_ONE as int), n)) >= sq(c) * (FX_ONE as int) * (FX_ONE as int) - 2
            * (FX_ONE as int) * (n * n),
        n * n * sq(tdiv(c * (FX_ONE as int), n)) <= sq(c) * (FX_ONE as int) * (FX_ONE as int) + 2
            * (FX_ONE as int) * (n * n) + n * n,
{
    let s = FX_ONE as int;
    lemma_tdiv(c * s, n);
    let cp = tdiv(c * s, n);
    let d = c * s - cp * n;
    if c * s >= 0 {
        assert(abs_i(cp) == cp && abs_i(c * s) == c * s);
        assert(0 <= d <= n) by (nonlinear_arith)
            requires
                cp * n <= c * s,
                c * s < (cp + 1) * n,
                d == c * s - cp * n,
                n >= 1,
        ;
    } else {
        assert(abs_i(cp) == -cp && abs_i(c * s) == -(c * s));
        assert(-n <= d <= 0) by (nonlinear_arith)
            requires
                (-cp) * n <= -(c * s),
                -(c * s) < ((-cp) + 1) * n,
                d == c * s - cp * n,
                n >= 1,
        ;
    }
    assert(c * d <= n * n && c * d >= -(n * n)) by (nonlinear_arith)
        requires
            -n <= c <= n,
            -n <= d <= n,
    ;
    assert(0 <= d * d <= n * n) by (nonlinear_arith)
        requires
            -n <= d <= n,
    ;
    assert(n * n * sq(cp) == (c * s) * (c * s) - 2 * s * (c * d) + d * d) by (nonlinear_arith)
        requires
            cp * n == c * s - d,
            sq(cp) == cp * cp,
            s == 1_000_000,
    ;
    assert((c * s) * (c * s) == sq(c) * s * s) by (nonlinear_arith)
        requires
            sq(c) == c * c,
    ;
    assert(2 * s * (c * d) <= 2 * s * (n * n) && 2 * s * (c * d) >= -(2 * s * (n * n)))
        by (nonlinear_arith)
        requires
            c * d <= n * n,
            c * d >= -(n * n),
            s == 1_000_000,
    ;
}

/// Renormalizing any quaternion at least `NORM_FLOOR` long yields one
/// whose length is within `[-5, +6]` micro-units of 1.0 — each tick's
/// renormalization silently restores the orientation unit invariant.
pub proof fn lemma_renorm_q_unit(q: Q4)
    requires
        norm_q(q) >= NORM_FLOOR as int,
    ensures
        unit_q(normalize_q(q)),
        bounded_q(normalize_q(q), FX_ONE as int),
{
    let s = FX_ONE as int;
    let m = sumsq_q(q);
    let n = norm_q(q);
    lemma_sq_nonneg(q.x);
    lemma_sq_nonneg(q.y);
    lemma_sq_nonneg(q.z);
    lemma_sq_nonneg(q.w);
    lemma_sqrt_floor(m);
    lemma_comp_le_norm(q.x, m);
    lemma_comp_le_norm(q.y, m);
    lemma_comp_le_norm(q.z, m);
    lemma_comp_le_norm(q.w, m);
    lemma_comp_renorm(q.x, n);
    lemma_comp_renorm(q.y, n);
    lemma_comp_renorm(q.z, n);
    lemma_comp_renorm(q.w, n);
    lemma_unit_comp_bound(q.x, n);
    lemma_unit_comp_bound(q.y, n);
    lemma_unit_comp_bound(q.z, n);
    lemma_unit_comp_bound(q.w, n);
    let r = normalize_q(q);
    let u = sumsq_q(r);
    assert(r.x == tdiv(q.x * s, n) && r.y == tdiv(q.y * s, n) && r.z == tdiv(q.z * s, n) && r.w
        == tdiv(q.w * s, n));
    assert(n * n * sq(r.x) >= sq(q.x) * s * s - 2 * s * (n * n));
    assert(n * n * sq(r.y) >= sq(q.y) * s * s - 2 * s * (n * n));
    assert(n * n * sq(r.z) >= sq(q.z) * s * s - 2 * s * (n * n));
    assert(n * n * sq(r.w) >= sq(q.w) * s * s - 2 * s * (n * n));
    assert(n * n * u == n * n * sq(r.x) + n * n * sq(r.y) + n * n * sq(r.z) + n * n * sq(r.w))
        by (nonlinear_arith)
        requires
            u == sq(r.x) + sq(r.y) + sq(r.z) + sq(r.w),
    ;
    assert(8 * s * (n * n) == 4 * (2 * s * (n * n))) by (nonlinear_arith);
    assert(4 * s * (n * n) == 2 * (2 * s * (n * n))) by (nonlinear_arith);
    assert(sq(q.x) * s * s + sq(q.y) * s * s + sq(q.z) * s * s + sq(q.w) * s * s == m * (s * s))
        by (nonlinear_arith)
        requires
            m == sq(q.x) + sq(q.y) + sq(q.z) + sq(q.w),
    ;
    assert(m * (s * s) >= (n * n) * (s * s)) by (nonlinear_arith)
        requires
            m >= n * n,
            s == 1_000_000,
    ;
    assert(u >= s * s - 8 * s) by (nonlinear_arith)
        requires
            n * n * u >= (n * n) * (s * s) - 8 * s * (n * n),
            n >= 1,
            s == 1_000_000,
    ;
    assert(m <= n * n + 2 * n) by (nonlinear_arith)
        requires
            m < sq(n + 1),
            sq(n + 1) == (n + 1) * (n + 1),
    ;
    assert(m * (s * s) <= (n * n) * (s * s) + 2 * n * (s * s)) by (nonlinear_arith)
        requires
            m <= n * n + 2 * n,
            s == 1_000_000,
    ;
    assert(s <= 2 * n);
    assert(2 * n * (s * s) <= 4 * s * (n * n)) by (nonlinear_arith)
        requires
            s <= 2 * n,
            s == 1_000_000,
            n >= 1,
    ;
    assert(u <= s * s + 12 * s + 4) by (nonlinear_arith)
        requires
            n * n * u <= (n * n) * (s * s) + 4 * s * (n * n) + 8 * s * (n * n) + 4 * (n * n),
            n >= 1,
            s == 1_000_000,
    ;
    lemma_sqrt_floor_at_least(u, s - 5);
    lemma_sqrt_floor_at_most(u, s + 6);
}

impl QuatFx {
    /// The identity rotation.
    pub fn identity() -> (r: QuatFx)
        ensures
            r@ == identity_q(),
    {
        QuatFx { x: 0, y: 0, z: 0, w: FX_ONE }
    }

    /// Length, rounded down to micro-units.
    pub fn norm(self) -> (r: i64)
        requires
            bounded_q(self@, 100_000_000_000_000_000),
        ensures
            r as int == norm_q(self@),
            0 <= r as int <= 200_000_000_000_000_000,
    {
        let n: u128 = sumsq_q_exec(self);
        let s: u64 = isqrt(n);
        proof {
            lemma_sqrt_floor_at_most(n as int, 200_000_000_000_000_000);
        }
        s as i64
    }

    /// Each component divided by the length. Callers guard against
    /// degenerate (shorter than `NORM_FLOOR`) quaternions, so the
    /// divisor is never zero.
    pub fn normalize(self) -> (r: QuatFx)
        requires
            bounded_q(self@, 100_000_000_000_000_000),
            norm_q(self@) >= 1,
        ensures
            r@ == normalize_q(self@),
            bounded_q(r@, FX_ONE as int),
    {
        let n: i64 = self.norm();
        proof {
            lemma_sq_nonneg(self@.x);
            lemma_sq_nonneg(self@.y);
            lemma_sq_nonneg(self@.z);
            lemma_sq_nonneg(self@.w);
            lemma_comp_le_norm(self@.x, sumsq_q(self@));
            lemma_comp_le_norm(self@.y, sumsq_q(self@));
            lemma_comp_le_norm(self@.z, sumsq_q(self@));
            lemma_comp_le_norm(self@.w, sumsq_q(self@));
            lemma_norm_div_ok(self@.x, n as int);
            lemma_norm_div_ok(self@.y, n as int);
            lemma_norm_div_ok(self@.z, n as int);
            lemma_norm_div_ok(self@.w, n as int);
            lemma_unit_comp_bound(self@.x, n as int);
            lemma_unit_comp_bound(self@.y, n as int);
            lemma_unit_comp_bound(self@.z, n as int);
            lemma_unit_comp_bound(self@.w, n as int);
        }
        QuatFx {
            x: muldiv(self.x, FX_ONE, n),
            y: muldiv(self.y, FX_ONE, n),
            z: muldiv(self.z, FX_ONE, n),
            w: muldiv(self.w, FX_ONE, n),
        }
    }

    /// Hamilton product: `self` composed after `o`.
    pub fn mul(self, o: QuatFx) -> (r: QuatFx)
        requires
            mul_products_ok(self@, o@),
        ensures
            r@ == mul_q(self@, o@),
            bounded_q(r@, 36_000_000_000_000),
    {
        QuatFx {
            x: fx_mul(self.w, o.x) + fx_mul(self.x, o.w) + fx_mul(self.y, o.z) - fx_mul(
                self.z,
                o.y,
            ),
            y: fx_mul(self.w, o.y) - fx_mul(self.x, o.z) + fx_mul(self.y, o.w) + fx_mul(
                self.z,
                o.x,
            ),
            z: fx_mul(self.w, o.z) + fx_mul(self.x, o.y) - fx_mul(self.y, o.x) + fx_mul(
                self.z,
                o.w,
            ),
            w: fx_mul(self.w, o.w) - fx_mul(self.x, o.x) - fx_mul(self.y, o.y) - fx_mul(
                self.z,
                o.z,
            ),
        }
    }

    /// Rotate a vector by this (near-unit) quaternion.
    pub fn rotate(self, v: Vec3Fx) -> (r: Vec3Fx)
        requires
            bounded_q(self@, 2_000_000),
            bounded_v(v@, 100_000_000),
        ensures
            r@ == rotate_s(self@, v@),
            bounded_v(r@, 7_000_000_000),
    {
        proof {
            lemma_rotate_ok(self@, v@);
        }
        let cx: i64 = fx_mul(self.y, v.z) - fx_mul(self.z, v.y);
        let cy: i64 = fx_mul(self.z, v.x) - fx_mul(self.x, v.z);
        let cz: i64 = fx_mul(self.x, v.y) - fx_mul(self.y, v.x);
        let tx: i64 = 2 * cx;
        let ty: i64 = 2 * cy;
        let tz: i64 = 2 * cz;
        proof {
            lemma_rotate_pair2(self@.w, tx as int);
            lemma_rotate_pair2(self@.w, ty as int);
            lemma_rotate_pair2(self@.w, tz as int);
            lemma_rotate_pair2(self@.x, ty as int);
            lemma_rotate_pair2(self@.x, tz as int);
            lemma_rotate_pair2(self@.y, tx as int);
            lemma_rotate_pair2(self@.y, tz as int);
            lemma_rotate_pair2(self@.z, tx as int);
            lemma_rotate_pair2(self@.z, ty as int);
        }
        let sx: i64 = fx_mul(tx, self.w);
        let sy: i64 = fx_mul(ty, self.w);
        let sz: i64 = fx_mul(tz, self.w);
        let dx: i64 = fx_mul(self.y, tz) - fx_mul(self.z, ty);
        let dy: i64 = fx_mul(self.z, tx) - fx_mul(self.x, tz);
        let dz: i64 = fx_mul(self.x, ty) - fx_mul(self.y, tx);
        Vec3Fx { x: v.x + sx + dx, y: v.y + sy + dy, z: v.z + sz + dz }
    }

    /// Rotation by `angle` about the world Y axis.
    pub fn from_rotation_y(angle: i64) -> (r: QuatFx)
        requires
            abs_i(angle as int) <= 8_000_000,
        ensures
            r@ == rot_y_s(angle as int),
            bounded_q(r@, 1_100_000_000),
            abs_i(angle as int) <= 6_000_000 ==> bounded_q(r@, 10_000_000),
    {
        let half: i64 = half_angle(angle);
        proof {
            if abs_i(angle as int) <= 6_000_000 {
                lemma_tdiv_bound(angle as int, 2, 3_000_000);
                lemma_sin_small(tdiv(angle as int, 2));
                lemma_cos_small(tdiv(angle as int, 2));
            }
        }
        QuatFx { x: 0, y: sin_fx(half), z: 0, w: cos_fx(half) }
    }

    /// Rotation by `angle` about the X axis.
    pub fn from_rotation_x(angle: i64) -> (r: QuatFx)
        requires
            abs_i(angle as int) <= 8_000_000,
        ensures
            r@ == rot_x_s(angle as int),
            bounded_q(r@, 1_100_000_000),
            abs_i(angle as int) <= 6_000_000 ==> bounded_q(r@, 10_000_000),
    {
        let half: i64 = half_angle(angle);
        proof {
            if abs_i(angle as int) <= 6_000_000 {
                lemma_tdiv_bound(angle as int, 2, 3_000_000);
                lemma_sin_small(tdiv(angle as int, 2));
                lemma_cos_small(tdiv(angle as int, 2));
            }
        }
        QuatFx { x: sin_fx(half), y: 0, z: 0, w: cos_fx(half) }
    }

    /// Rotation by `angle` about the Z axis.
    pub fn from_rotation_z(angle: i64) -> (r: QuatFx)
        requires
            abs_i(angle as int) <= 8_000_000,
        ensures
            r@ == rot_z_s(angle as int),
            bounded_q(r@, 1_100_000_000),
            abs_i(angle as int) <= 6_000_000 ==> bounded_q(r@, 10_000_000),
    {
        let half: i64 = half_angle(angle);
        proof {
            if abs_i(angle as int) <= 6_000_000 {
                lemma_tdiv_bound(angle as int, 2, 3_000_000);
                lemma_sin_small(tdiv(angle as int, 2));
                lemma_cos_small(tdiv(angle as int, 2));
            }
        }
        QuatFx { x: 0, y: 0, z: sin_fx(half), w: cos_fx(half) }
    }
}

/// Half of an angle, truncating toward zero.
fn half_angle(angle: i64) -> (r: i64)
    requires
        abs_i(angle as int) <= 8_000_000,
    ensures
        r as int == tdiv(angle as int, 2),
        abs_i(r as int) <= 4_000_000,
    {
    proof {
        lemma_tdiv_shrinks(angle as int, 2);
    }
    muldiv(angle, 1, 2)
}

/// Fixed-point sine polynomial.
pub fn sin_fx(t: i64) -> (r: i64)
    requires
        abs_i(t as int) <= 4_000_000,
    ensures
        r as int == sin_s(t as int),
        abs_i(r as int) <= 1_100_000_000,
{
    proof {
        lemma_sin_bounds(t as int);
    }
    let t2: i64 = fx_mul(t, t);
    let t3: i64 = fx_mul(t2, t);
    let t5: i64 = fx_mul(t3, t2);
    proof {
        lemma_tdiv_shrinks(t3 as int, 6);
        lemma_tdiv_shrinks(t5 as int, 120);
    }
    let a: i64 = muldiv(t3, 1, 6);
    let b: i64 = muldiv(t5, 1, 120);
    t - a + b
}

/// Fixed-point cosine polynomial.
pub fn cos_fx(t: i64) -> (r: i64)
    requires
        abs_i(t as int) <= 4_000_000,
    ensures
        r as int == cos_s(t as int),
        abs_i(r as int) <= 300_000_000,
{
    proof {
        lemma_cos_bounds(t as int);
    }
    let t2: i64 = fx_mul(t, t);
    let t4: i64 = fx_mul(t2, t2);
    proof {
        lemma_tdiv_shrinks(t2 as int, 2);
        lemma_tdiv_shrinks(t4 as int, 24);
    }
    let a: i64 = muldiv(t2, 1, 2);
    let b: i64 = muldiv(t4, 1, 24);
    FX_ONE - a + b
}

/// For half angles up to 3 radians the sine polynomial stays within
/// 10 units: the factor bound used when composing per-tick rotations.
pub proof fn lemma_sin_small(t: int)
    requires
        abs_i(t) <= 3_000_000,
    ensures
        abs_i(sin_s(t)) <= 10_000_000,
{
    let s = FX_ONE as int;
    assert(abs_i(t * t) <= 9_000_000 * s) by (nonlinear_arith)
        requires
            abs_i(t) <= 3_000_000,
            s == 1_000_000,
    ;
    lemma_tdiv_bound(t * t, s, 9_000_000);
    let t2 = fx_mul_s(t, t);
    assert(abs_i(t2 * t) <= 27_000_000 * s) by (nonlinear_arith)
        requires
            abs_i(t2) <= 9_000_000,
            abs_i(t) <= 3_000_000,
            s == 1_000_000,
    ;
    lemma_tdiv_bound(t2 * t, s, 27_000_000);
    let t3 = fx_mul_s(t2, t);
    assert(abs_i(t3 * t2) <= 243_000_000 * s) by (nonlinear_arith)
        requires
            abs_i(t3) <= 27_000_000,
            abs_i(t2) <= 9_000_000,
            s == 1_000_000,
    ;
    lemma_tdiv_bound(t3 * t2, s, 243_000_000);
    let t5 = fx_mul_s(t3, t2);
    lemma_tdiv_bound(t3, 6, 4_500_000);
    lemma_tdiv_bound(t5, 120, 2_100_000);
}

/// For half angles up to 3 radians the cosine polynomial stays within
/// 10 units.
pub proof fn lemma_cos_small(t: int)
    requires
        abs_i(t) <= 3_000_000,
    ensures
        abs_i(cos_s(t)) <= 10_000_000,
{
    let s = FX_ONE as int;
    assert(abs_i(t * t) <= 9_000_000 * s) by (nonlinear_arith)
        requires
            abs_i(t) <= 3_000_000,
            s == 1_000_000,
    ;
    lemma_tdiv_bound(t * t, s, 9_000_000);
    let t2 = fx_mul_s(t, t);
    assert(abs_i(t2 * t2) <= 81_000_000 * s) by (nonlinear_arith)
        requires
            abs_i(t2) <= 9_000_000,
            s == 1_000_000,
    ;
    lemma_tdiv_bound(t2 * t2, s, 81_000_000);
    let t4 = fx_mul_s(t2, t2);
    lemma_tdiv_bound(t2, 2, 4_500_000);
    lemma_tdiv_bound(t4, 24, 3_375_000);
}

/// A full turn, pi and a quarter turn in micro-radians, rounded down:
/// the constants of the range reduction below.
pub const FX_TAU: i64 = 6_283_185;

pub const FX_PI: i64 = 3_141_592;

pub const FX_PI_2: i64 = 1_570_796;

/// Full-range sine of a non-negative angle: reduce modulo a turn, fold
/// the half-turns and quadrants onto `[0, pi/2]`, then the polynomial.
pub open spec fn sin_full_s(a: int) -> int {
    let r = a % (FX_TAU as int);
    let neg = r >= FX_PI as int;
    let r2 = if neg {
        r - FX_PI as int
    } else {
        r
    };
    let s0 = if r2 > FX_PI_2 as int {
        sin_s(FX_PI as int - r2)
    } else {
        sin_s(r2)
    };
    if neg {
        -s0
    } else {
        s0
    }
}

/// Full-range cosine of a non-negative angle, by the same reduction.
pub open spec fn cos_full_s(a: int) -> int {
    let r = a % (FX_TAU as int);
    let neg = r >= FX_PI as int;
    let r2 = if neg {
        r - FX_PI as int
    } else {
        r
    };
    let c0 = if r2 > FX_PI_2 as int {
        -cos_s(FX_PI as int - r2)
    } else {
        cos_s(r2)
    };
    if neg {
        -c0
    } else {
        c0
    }
}

/// Full-range sine, executable.
pub fn sin_full(a: u64) -> (r: i64)
    ensures
        r as int == sin_full_s(a as int),
        abs_i(r as int) <= 10_000_000,
{
    let rem: u64 = a % 6_283_185;
    let (r2, neg): (i64, bool) = if rem >= 3_141_592 {
        ((rem - 3_141_592) as i64, true)
    } else {
        (rem as i64, false)
    };
    proof {
        if r2 > FX_PI_2 {
            lemma_sin_small(FX_PI as int - r2 as int);
        } else {
            lemma_sin_small(r2 as int);
        }
    }
    let s0: i64 = if r2 > FX_PI_2 {
        sin_fx(FX_PI - r2)
    } else {
        sin_fx(r2)
    };
    if neg {
        -s0
    } else {
        s0
    }
}

/// Full-range cosine, executable.
pub fn cos_full(a: u64) -> (r: i64)
    ensures
        r as int == cos_full_s(a as int),
        abs_i(r as int) <= 10_000_000,
{
    let rem: u64 = a % 6_283_185;
    let (r2, neg): (i64, bool) = if rem >= 3_141_592 {
        ((rem - 3_141_592) as i64, true)
    } else {
        (rem as i64, false)
    };
    proof {
        if r2 > FX_PI_2 {
            lemma_cos_small(FX_PI as int - r2 as int);
        } else {
            lemma_cos_small(r2 as int);
        }
    }
    let c0: i64 = if r2 > FX_PI_2 {
        -cos_fx(FX_PI - r2)
    } else {
        cos_fx(r2)
    };
    if neg {
        -c0
    } else {
        c0
    }
}

/// Intermediate bounds of the sine polynomial for a 4-unit (4-radian)
/// argument: every power and term stays far inside `i64`.
proof fn lemma_sin_bounds(t: int)
    requires
        abs_i(t) <= 4_000_000,
    ensures
        abs_i(t * t) <= 16_000_000 * (FX_ONE as int),
        abs_i(fx_mul_s(t, t)) <= 16_000_000,
        abs_i(fx_mul_s(t, t) * t) <= 64_000_000 * (FX_ONE as int),
        abs_i(fx_mul_s(fx_mul_s(t, t), t)) <= 64_000_000,
        abs_i(fx_mul_s(fx_mul_s(t, t), t) * fx_mul_s(t, t)) <= 1_024_000_000 * (FX_ONE as int),
        abs_i(fx_mul_s(fx_mul_s(fx_mul_s(t, t), t), fx_mul_s(t, t))) <= 1_024_000_000,
{
    let s = FX_ONE as int;
    assert(abs_i(t * t) <= 16_000_000 * s) by (nonlinear_arith)
        requires
            abs_i(t) <= 4_000_000,
            s == 1_000_000,
    ;
    lemma_tdiv_bound(t * t, s, 16_000_000);
    let t2 = fx_mul_s(t, t);
    assert(abs_i(t2 * t) <= 64_000_000 * s) by (nonlinear_arith)
        requires
            abs_i(t2) <= 16_000_000,
            abs_i(t) <= 4_000_000,
            s == 1_000_000,
    ;
    lemma_tdiv_bound(t2 * t, s, 64_000_000);
    let t3 = fx_mul_s(t2, t);
    assert(abs_i(t3 * t2) <= 1_024_000_000 * s) by (nonlinear_arith)
        requires
            abs_i(t3) <= 64_000_000,
            abs_i(t2) <= 16_000_000,
            s == 1_000_000,
    ;
    lemma_tdiv_bound(t3 * t2, s, 1_024_000_000);
}

/// Intermediate bounds of the cosine polynomial.
proof fn lemma_cos_bounds(t: int)
    requires
        abs_i(t) <= 4_000_000,
    ensures
        abs_i(t * t) <= 16_000_000 * (FX_ONE as int),
        abs_i(fx_mul_s(t, t)) <= 16_000_000,
        abs_i(fx_mul_s(t, t) * fx_mul_s(t, t)) <= 256_000_000 * (FX_ONE as int),
        abs_i(fx_mul_s(fx_mul_s(t, t), fx_mul_s(t, t))) <= 256_000_000,
{
    let s = FX_ONE as int;
    assert(abs_i(t * t) <= 16_000_000 * s) by (nonlinear_arith)
        requires
            abs_i(t) <= 4_000_000,
            s == 1_000_000,
    ;
    lemma_tdiv_bound(t * t, s, 16_000_000);
    let t2 = fx_mul_s(t, t);
    assert(abs_i(t2 * t2) <= 256_000_000 * s) by (nonlinear_arith)
        requires
            abs_i(t2) <= 16_000_000,
            s == 1_000_000,
    ;
    lemma_tdiv_bound(t2 * t2, s, 256_000_000);
}

/// `muldiv(c, FX_ONE, n)` is safe when `|c| <= n`.
proof fn lemma_norm_div_ok(c: int, n: int)
    by (nonlinear_arith)
    requires
        n >= 1,
        abs_i(c) <= n,
    ensures
        -(i64::MAX as int) * n <= c * (FX_ONE as int) <= (i64::MAX as int) * n,
{
}

/// All sixteen products of a Hamilton product whose factor bounds
/// multiply to at most 9e18 are safe and 9e12-bounded.
pub proof fn lemma_mul_terms_ok(a: Q4, b: Q4, ba: int, bb: int)
    requires
        0 <= ba,
        0 <= bb,
        bounded_q(a, ba),
        bounded_q(b, bb),
        ba * bb <= 9_000_000_000_000_000_000,
    ensures
        mul_products_ok(a, b),
{
    lemma_one_product(a.w, b.x, ba, bb);
    lemma_one_product(a.x, b.w, ba, bb);
    lemma_one_product(a.y, b.z, ba, bb);
    lemma_one_product(a.z, b.y, ba, bb);
    lemma_one_product(a.w, b.y, ba, bb);
    lemma_one_product(a.x, b.z, ba, bb);
    lemma_one_product(a.y, b.w, ba, bb);
    lemma_one_product(a.z, b.x, ba, bb);
    lemma_one_product(a.w, b.z, ba, bb);
    lemma_one_product(a.x, b.y, ba, bb);
    lemma_one_product(a.y, b.x, ba, bb);
    lemma_one_product(a.z, b.w, ba, bb);
    lemma_one_product(a.w, b.w, ba, bb);
    lemma_one_product(a.x, b.x, ba, bb);
    lemma_one_product(a.y, b.y, ba, bb);
    lemma_one_product(a.z, b.z, ba, bb);
}

/// One pair of factors whose bounds multiply to at most 9e18: the
/// widened product is in range and the rescaled product is 9e12-bounded.
proof fn lemma_one_product(a: int, b: int, ba: int, bb: int)
    requires
        0 <= ba,
        0 <= bb,
        abs_i(a) <= ba,
        abs_i(b) <= bb,
        ba * bb <= 9_000_000_000_000_000_000,
    ensures
        -(i64::MAX as int) * (FX_ONE as int) <= a * b <= (i64::MAX as int) * (FX_ONE as int),
        abs_i(fx_mul_s(a, b)) <= 9_000_000_000_000,
{
    crate::fx::lemma_abs_mul(a, b, ba, bb);
    assert(FX_ONE as int == 1_000_000int);
    assert((9_000_000_000_000int) * (1_000_000int) == 9_000_000_000_000_000_000int)
        by (nonlinear_arith);
    lemma_tdiv_bound(a * b, FX_ONE as int, 9_000_000_000_000);
}

/// Componentwise bound of a Hamilton product: with factor bounds
/// multiplying to at most `t * FX_ONE`, every component is within `4*t`.
pub proof fn lemma_mul_q_bound(a: Q4, b: Q4, ba: int, bb: int, t: int)
    requires
        0 <= ba,
        0 <= bb,
        0 <= t <= 2_000_000_000_000_000_000,
        bounded_q(a, ba),
        bounded_q(b, bb),
        ba * bb <= t * (FX_ONE as int),
    ensures
        bounded_q(mul_q(a, b), 4 * t),
{
    lemma_pair_le(a.w, b.x, ba, bb, t);
    lemma_pair_le(a.x, b.w, ba, bb, t);
    lemma_pair_le(a.y, b.z, ba, bb, t);
    lemma_pair_le(a.z, b.y, ba, bb, t);
    lemma_pair_le(a.w, b.y, ba, bb, t);
    lemma_pair_le(a.x, b.z, ba, bb, t);
    lemma_pair_le(a.y, b.w, ba, bb, t);
    lemma_pair_le(a.z, b.x, ba, bb, t);
    lemma_pair_le(a.w, b.z, ba, bb, t);
    lemma_pair_le(a.x, b.y, ba, bb, t);
    lemma_pair_le(a.y, b.x, ba, bb, t);
    lemma_pair_le(a.z, b.w, ba, bb, t);
    lemma_pair_le(a.w, b.w, ba, bb, t);
    lemma_pair_le(a.x, b.x, ba, bb, t);
    lemma_pair_le(a.y, b.y, ba, bb, t);
    lemma_pair_le(a.z, b.z, ba, bb, t);
}

/// One pair: the rescaled product is bounded by `t`.
proof fn lemma_pair_le(x: int, y: int, ba: int, bb: int, t: int)
    requires
        0 <= ba,
        0 <= bb,
        0 <= t <= 2_000_000_000_000_000_000,
        abs_i(x) <= ba,
        abs_i(y) <= bb,
        ba * bb <= t * (FX_ONE as int),
    ensures
        abs_i(fx_mul_s(x, y)) <= t,
{
    crate::fx::lemma_abs_mul(x, y, ba, bb);
    lemma_tdiv_bound(x * y, FX_ONE as int, t);
}

/// Every product in a Hamilton product is in range.
pub open spec fn mul_products_ok(a: Q4, b: Q4) -> bool {
    &&& abs_i(fx_mul_s(a.w, b.x)) <= 9_000_000_000_000
    &&& abs_i(fx_mul_s(a.x, b.w)) <= 9_000_000_000_000
    &&& abs_i(fx_mul_s(a.y, b.z)) <= 9_000_000_000_000
    &&& abs_i(fx_mul_s(a.z, b.y)) <= 9_000_000_000_000
    &&& abs_i(fx_mul_s(a.w, b.y)) <= 9_000_000_000_000
    &&& abs_i(fx_mul_s(a.x, b.z)) <= 9_000_000_000_000
    &&& abs_i(fx_mul_s(a.y, b.w)) <= 9_000_000_000_000
    &&& abs_i(fx_mul_s(a.z, b.x)) <= 9_000_000_000_000
    &&& abs_i(fx_mul_s(a.w, b.z)) <= 9_000_000_000_000
    &&& abs_i(fx_mul_s(a.x, b.y)) <= 9_000_000_000_000
    &&& abs_i(fx_mul_s(a.y, b.x)) <= 9_000_000_000_000
    &&& abs_i(fx_mul_s(a.z, b.w)) <= 9_000_000_000_000
    &&& abs_i(fx_mul_s(a.w, b.w)) <= 9_000_000_000_000
    &&& abs_i(fx_mul_s(a.x, b.x)) <= 9_000_000_000_000
    &&& abs_i(fx_mul_s(a.y, b.y)) <= 9_000_000_000_000
    &&& abs_i(fx_mul_s(a.z, b.z)) <= 9_000_000_000_000
    &&& -(i64::MAX as int) * (FX_ONE as int) <= a.w * b.x <= (i64::MAX as int) * (FX_ONE as int)
    &&& -(i64::MAX as int) * (FX_ONE as int) <= a.x * b.w <= (i64::MAX as int) * (FX_ONE as int)
    &&& -(i64::MAX as int) * (FX_ONE as int) <= a.y * b.z <= (i64::MAX as int) * (FX_ONE as int)
    &&& -(i64::MAX as int) * (FX_ONE as int) <= a.z * b.y <= (i64::MAX as int) * (FX_ONE as int)
    &&& -(i64::MAX as int) * (FX_ONE as int) <= a.w * b.y <= (i64::MAX as int) * (FX_ONE as int)
    &&& -(i64::MAX as int) * (FX_ONE as int) <= a.x * b.z <= (i64::MAX as int) * (FX_ONE as int)
    &&& -(i64::MAX as int) * (FX_ONE as int) <= a.y * b.w <= (i64::MAX as int) * (FX_ONE as int)
    &&& -(i64::MAX as int) * (FX_ONE as int) <= a.z * b.x <= (i64::MAX as int) * (FX_ONE as int)
    &&& -(i64::MAX as int) * (FX_ONE as int) <= a.w * b.z <= (i64::MAX as int) * (FX_ONE as int)
    &&& -(i64::MAX as int) * (FX_ONE as int) <= a.x * b.y <= (i64::MAX as int) * (FX_ONE as int)
    &&& -(i64::MAX as int) * (FX_ONE as int) <= a.y * b.x <= (i64::MAX as int) * (FX_ONE as int)
    &&& -(i64::MAX as int) * (FX_ONE as int) <= a.z * b.w <= (i64::MAX as int) * (FX_ONE as int)
    &&& -(i64::MAX as int) * (FX_ONE as int) <= a.w * b.w <= (i64::MAX as int) * (FX_ONE as int)
    &&& -(i64::MAX as int) * (FX_ONE as int) <= a.x * b.x <= (i64::MAX as int) * (FX_ONE as int)
    &&& -(i64::MAX as int) * (FX_ONE as int) <= a.y * b.y <= (i64::MAX as int) * (FX_ONE as int)
    &&& -(i64::MAX as int) * (FX_ONE as int) <= a.z * b.z <= (i64::MAX as int) * (FX_ONE as int)
}

/// All products of a rotation of a 1e8-bounded vector by a 2e6-bounded
/// quaternion are in range.
proof fn lemma_rotate_ok(q: Q4, v: V3)
    requires
        bounded_q(q, 2_000_000),
        bounded_v(v, 100_000_000),
    ensures
        abs_i(fx_mul_s(q.y, v.z)) <= 200_000_000,
        abs_i(fx_mul_s(q.z, v.y)) <= 200_000_000,
        abs_i(fx_mul_s(q.z, v.x)) <= 200_000_000,
        abs_i(fx_mul_s(q.x, v.z)) <= 200_000_000,
        abs_i(fx_mul_s(q.x, v.y)) <= 200_000_000,
        abs_i(fx_mul_s(q.y, v.x)) <= 200_000_000,
        -(i64::MAX as int) * (FX_ONE as int) <= q.y * v.z <= (i64::MAX as int) * (FX_ONE as int),
        -(i64::MAX as int) * (FX_ONE as int) <= q.z * v.y <= (i64::MAX as int) * (FX_ONE as int),
        -(i64::MAX as int) * (FX_ONE as int) <= q.z * v.x <= (i64::MAX as int) * (FX_ONE as int),
        -(i64::MAX as int) * (FX_ONE as int) <= q.x * v.z <= (i64::MAX as int) * (FX_ONE as int),
        -(i64::MAX as int) * (FX_ONE as int) <= q.x * v.y <= (i64::MAX as int) * (FX_ONE as int),
        -(i64::MAX as int) * (FX_ONE as int) <= q.y * v.x <= (i64::MAX as int) * (FX_ONE as int),
{
    lemma_rotate_pair(q.y, v.z);
    lemma_rotate_pair(q.z, v.y);
    lemma_rotate_pair(q.z, v.x);
    lemma_rotate_pair(q.x, v.z);
    lemma_rotate_pair(q.x, v.y);
    lemma_rotate_pair(q.y, v.x);
}

/// One cross-product pair of a rotation: in range and 2e8-bounded.
proof fn lemma_rotate_pair(a: int, b: int)
    requires
        abs_i(a) <= 2_000_000,
        abs_i(b) <= 100_000_000,
    ensures
        abs_i(fx_mul_s(a, b)) <= 200_000_000,
        -(i64::MAX as int) * (FX_ONE as int) <= a * b <= (i64::MAX as int) * (FX_ONE as int),
{
    assert(abs_i(a * b) <= 200_000_000 * (FX_ONE as int)) by (nonlinear_arith)
        requires
            abs_i(a) <= 2_000_000,
            abs_i(b) <= 100_000_000,
    ;
    lemma_tdiv_bound(a * b, FX_ONE as int, 200_000_000);
}

/// One second-stage pair of a rotation (a quaternion component with a
/// component of the doubled cross product), in either order.
proof fn lemma_rotate_pair2(a: int, b: int)
    requires
        abs_i(a) <= 2_000_000,
        abs_i(b) <= 1_000_000_000,
    ensures
        abs_i(fx_mul_s(a, b)) <= 2_000_000_000,
        abs_i(fx_mul_s(b, a)) <= 2_000_000_000,
        -(i64::MAX as int) * (FX_ONE as int) <= a * b <= (i64::MAX as int) * (FX_ONE as int),
        -(i64::MAX as int) * (FX_ONE as int) <= b * a <= (i64::MAX as int) * (FX_ONE as int),
{
    assert(abs_i(a * b) <= 2_000_000_000 * (FX_ONE as int) && a * b == b * a)
        by (nonlinear_arith)
        requires
            abs_i(a) <= 2_000_000,
            abs_i(b) <= 1_000_000_000,
    ;
    lemma_tdiv_bound(a * b, FX_ONE as int, 2_000_000_000);
    lemma_tdiv_bound(b * a, FX_ONE as int, 2_000_000_000);
}

/// Exact sum of the four squared components.
fn sumsq_q_exec(q: QuatFx) -> (r: u128)
    requires
        bounded_q(q@, 100_000_000_000_000_000),
    ensures
        r as int == sumsq_q(q@),
        r as int <= 40_000_000_000_000_000_000_000_000_000_000_000,
{
    proof {
        lemma_q_sq_cast_bound(q@.x);
        lemma_q_sq_cast_bound(q@.y);
        lemma_q_sq_cast_bound(q@.z);
        lemma_q_sq_cast_bound(q@.w);
    }
    let xx: u128 = ((q.x as i128) * (q.x as i128)) as u128;
    let yy: u128 = ((q.y as i128) * (q.y as i128)) as u128;
    let zz: u128 = ((q.z as i128) * (q.z as i128)) as u128;
    let ww: u128 = ((q.w as i128) * (q.w as i128)) as u128;
    xx + yy + zz + ww
}

/// A square of a 1e17-bounded component fits comfortably in `i128`.
proof fn lemma_q_sq_cast_bound(c: int)
    by (nonlinear_arith)
    requires
        abs_i(c) <= 100_000_000_000_000_000,
    ensures
        0 <= sq(c) <= 10_000_000_000_000_000_000_000_000_000_000_000,
{
}

} // verus!

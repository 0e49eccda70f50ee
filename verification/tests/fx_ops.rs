//! Fixed-point primitive behavior: truncation, roots, norms, clamps.

use flightcore::fx::{fx_lerp, fx_mul, isqrt, FX_ONE};
use flightcore::vec3::Vec3Fx;

#[test]
fn fx_mul_rounds_toward_zero() {
    // 1.5 in micro-units truncates to 1, and -1.5 to -1 (not -2).
    assert_eq!(fx_mul(3, 500_000), 1);
    assert_eq!(fx_mul(-3, 500_000), -1);
    // A product smaller than one micro-unit vanishes from either side.
    assert_eq!(fx_mul(1, 500_000), 0);
    assert_eq!(fx_mul(-1, 500_000), 0);
}

#[test]
fn fx_mul_exact_products() {
    // 2.0 * 3.0 == 6.0
    assert_eq!(fx_mul(2_000_000, 3_000_000), 6_000_000);
    // 1000.0 * 0.016666 == 16.666
    assert_eq!(fx_mul(1_000_000_000, 16_666), 16_666_000);
}

#[test]
fn isqrt_exact_and_floor() {
    assert_eq!(isqrt(0), 0);
    assert_eq!(isqrt(1), 1);
    assert_eq!(isqrt(3), 1);
    assert_eq!(isqrt(4), 2);
    assert_eq!(isqrt(999_999), 999);
    assert_eq!(isqrt(1_000_000_000_000), 1_000_000);
}

#[test]
fn vec_norm_pythagorean() {
    // (3, 4, 0) has length exactly 5.
    let v = Vec3Fx::new(3_000_000, 4_000_000, 0);
    assert_eq!(v.norm(), 5_000_000);
}

#[test]
fn normalize_zero_vector_stays_zero() {
    let z = Vec3Fx::zero();
    assert_eq!(z.normalize(), Vec3Fx::zero());
}

#[test]
fn normalize_axis_is_unit() {
    let v = Vec3Fx::new(0, 9_000_000, 0);
    let n = v.normalize();
    assert_eq!(n, Vec3Fx::new(0, FX_ONE, 0));
}

#[test]
fn clamp_mag_caps_long_vectors_only() {
    let long = Vec3Fx::new(10_000_000, 0, 0);
    let capped = long.clamp_mag(250_000);
    assert_eq!(capped, Vec3Fx::new(250_000, 0, 0));
    let short = Vec3Fx::new(100_000, 0, 0);
    assert_eq!(short.clamp_mag(250_000), short);
}

#[test]
fn lerp_midpoint_and_endpoints() {
    assert_eq!(fx_lerp(0, 1_000_000, 500_000), 500_000);
    assert_eq!(fx_lerp(200, 900, 0), 200);
    assert_eq!(fx_lerp(200, 900, FX_ONE), 900);
}

#[test]
fn lerp_factor_above_one_overshoots() {
    // The smoothing factor is not clamped: t = 2.0 lands past the target.
    assert_eq!(fx_lerp(0, 1_000_000, 2_000_000), 2_000_000);
}

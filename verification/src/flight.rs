//! Flight dynamics: per-tick integration of the craft's orientation
//! and position.
//!
//! Each tick builds incremental yaw and pitch rotations from the
//! smoothed control axes, composes them around the current orientation
//! (yaw in the world frame, pitch in the body frame, so yaw never tips
//! the horizon and pitch is relative to the current heading),
//! renormalizes, and advances the position along the local forward
//! axis (`-Z` rotated by the new orientation) by the forward speed.
//!
//! A composed quaternion shorter than `NORM_FLOOR` (possible only for
//! degenerate inputs far outside normal play) is not normalized; the
//! craft keeps its previous orientation for that tick, so the
//! orientation unit invariant is silently maintained in every case.

use vstd::prelude::*;

use crate::craft::{
    Craft, CraftV, MAX_SPEED, PITCH_SPEED, YAW_SPEED, craft_ctrl_wf, craft_pos_ok,
};
use crate::fx::{FX_ONE, abs_i, fx_mul, fx_mul_s, lemma_abs_mul, lemma_fx_mul_s_le, lemma_tdiv};
use crate::input::{DT_STABLE, KeyState, input_controls_ship, no_keys, shaper_s};
use crate::quat::{
    NORM_FLOOR, QuatFx, lemma_mul_q_bound, lemma_mul_terms_ok, lemma_renorm_q_unit,
    lemma_unit_q_bounded, mul_q, norm_q, normalize_q, rot_x_s, rot_y_s, rotate_s, unit_q,
};
use crate::vec3::{V3, Vec3Fx, add_v, bounded_v, scale_v};

verus! {

/// Longest tick the flight dynamics accept (2 s), far beyond any real
/// frame time; keeps every intermediate product inside `i64`.
pub const FLIGHT_DT_MAX: i64 = 2_000_000;

/// Widest control axis value the flight dynamics accept (2 radians,
/// more than twice full deflection, to tolerate shaper overshoot).
pub const FLIGHT_AXIS_MAX: i64 = 2_000_000;

/// The local forward axis: engine convention is that the craft (like a
/// camera) looks along negative Z.
pub open spec fn forward_axis() -> V3 {
    V3 { x: 0, y: 0, z: -(FX_ONE as int) }
}

/// The craft after one flight-dynamics tick: composed and renormalized
/// orientation, position advanced by `forward * speed * dt`. Control
/// axes and speed are untouched.
pub open spec fn flight_s(c: CraftV, dt: int) -> CraftV {
    let yaw_rot = rot_y_s(fx_mul_s(fx_mul_s(c.yaw_input, YAW_SPEED as int), dt));
    let pitch_rot = rot_x_s(fx_mul_s(fx_mul_s(c.pitch_input, PITCH_SPEED as int), dt));
    let composed = mul_q(mul_q(yaw_rot, c.orientation), pitch_rot);
    let orient = if norm_q(composed) >= NORM_FLOOR as int {
        normalize_q(composed)
    } else {
        c.orientation
    };
    let fwd = rotate_s(orient, forward_axis());
    CraftV {
        position: add_v(c.position, scale_v(scale_v(fwd, c.forward_speed), dt)),
        orientation: orient,
        forward_speed: c.forward_speed,
        pitch_input: c.pitch_input,
        yaw_input: c.yaw_input,
        bank: c.bank,
    }
}

/// One player tick: input shaping, then flight dynamics, as the two
/// run in sequence inside one simulation step.
pub open spec fn player_tick_s(c: CraftV, k: KeyState, dt: int) -> CraftV {
    flight_s(shaper_s(c, k, dt), dt)
}

/// One flight-dynamics tick, mutating the craft in place. The result
/// is exactly `flight_s` of the old state.
pub fn update_ship_physics(craft: &mut Craft, dt: i64)
    requires
        0 <= dt <= FLIGHT_DT_MAX,
        abs_i(old(craft)@.pitch_input) <= FLIGHT_AXIS_MAX as int,
        abs_i(old(craft)@.yaw_input) <= FLIGHT_AXIS_MAX as int,
        0 <= old(craft).forward_speed <= MAX_SPEED,
        unit_q(old(craft)@.orientation),
        craft_pos_ok(old(craft)@),
    ensures
        final(craft)@ == flight_s(old(craft)@, dt as int),
        unit_q(final(craft)@.orientation),
        bounded_v(final(craft)@.position, 1_100_000_000_000_000_000),
{
    proof {
        lemma_angle_bounds(old(craft)@.yaw_input, YAW_SPEED as int, dt as int);
        lemma_angle_bounds(old(craft)@.pitch_input, PITCH_SPEED as int, dt as int);
        lemma_unit_q_bounded(old(craft)@.orientation);
    }
    let yaw_angle: i64 = fx_mul(fx_mul(craft.yaw_input, YAW_SPEED), dt);
    let pitch_angle: i64 = fx_mul(fx_mul(craft.pitch_input, PITCH_SPEED), dt);
    let yaw_rot: QuatFx = QuatFx::from_rotation_y(yaw_angle);
    let pitch_rot: QuatFx = QuatFx::from_rotation_x(pitch_angle);
    proof {
        lemma_mul_terms_ok(yaw_rot@, craft@.orientation, 10_000_000, 1_000_006);
        lemma_mul_q_bound(yaw_rot@, craft@.orientation, 10_000_000, 1_000_006, 10_000_060);
    }
    let q1: QuatFx = yaw_rot.mul(craft.orientation);
    proof {
        lemma_mul_terms_ok(q1@, pitch_rot@, 40_000_240, 10_000_000);
        lemma_mul_q_bound(q1@, pitch_rot@, 40_000_240, 10_000_000, 400_002_400_000);
    }
    let composed: QuatFx = q1.mul(pitch_rot);
    let n: i64 = composed.norm();
    if n >= NORM_FLOOR {
        proof {
            lemma_renorm_q_unit(composed@);
        }
        craft.orientation = composed.normalize();
    }
    let fwd: Vec3Fx = craft.orientation.rotate(Vec3Fx::new(0, 0, -FX_ONE));
    proof {
        lemma_unit_q_bounded(craft@.orientation);
        lemma_abs_mul(fwd@.x, craft@.forward_speed, 7_000_000_000, 1_000_000_000);
        lemma_abs_mul(fwd@.y, craft@.forward_speed, 7_000_000_000, 1_000_000_000);
        lemma_abs_mul(fwd@.z, craft@.forward_speed, 7_000_000_000, 1_000_000_000);
        lemma_fx_mul_s_le(fwd@.x, craft@.forward_speed, 7_000_000_000_000);
        lemma_fx_mul_s_le(fwd@.y, craft@.forward_speed, 7_000_000_000_000);
        lemma_fx_mul_s_le(fwd@.z, craft@.forward_speed, 7_000_000_000_000);
    }
    let vel: Vec3Fx = fwd.scale_fx(craft.forward_speed);
    proof {
        lemma_abs_mul(vel@.x, dt as int, 7_000_000_000_000, 2_000_000);
        lemma_abs_mul(vel@.y, dt as int, 7_000_000_000_000, 2_000_000);
        lemma_abs_mul(vel@.z, dt as int, 7_000_000_000_000, 2_000_000);
        lemma_fx_mul_s_le(vel@.x, dt as int, 14_000_000_000_000);
        lemma_fx_mul_s_le(vel@.y, dt as int, 14_000_000_000_000);
        lemma_fx_mul_s_le(vel@.z, dt as int, 14_000_000_000_000);
    }
    let delta: Vec3Fx = vel.scale_fx(dt);
    craft.position = craft.position.add(delta);
}

/// A control axis times its rate scale times the tick length stays
/// within the 6-radian range of the rotation constructors.
proof fn lemma_angle_bounds(axis: int, rate: int, dt: int)
    requires
        abs_i(axis) <= 2_000_000,
        0 <= rate <= 1_500_000,
        0 <= dt <= 2_000_000,
    ensures
        abs_i(fx_mul_s(axis, rate)) <= 3_000_000,
        crate::fx::mul_ok(axis, rate),
        abs_i(fx_mul_s(fx_mul_s(axis, rate), dt)) <= 6_000_000,
        crate::fx::mul_ok(fx_mul_s(axis, rate), dt),
{
    lemma_abs_mul(axis, rate, 2_000_000, 1_500_000);
    lemma_fx_mul_s_le(axis, rate, 3_000_000);
    lemma_abs_mul(fx_mul_s(axis, rate), dt, 3_000_000, 2_000_000);
    lemma_fx_mul_s_le(fx_mul_s(axis, rate), dt, 6_000_000);
}

/// One full player tick: input shaping, then flight dynamics.
pub fn player_tick(craft: &mut Craft, keys: KeyState, dt: i64)
    requires
        0 <= dt <= DT_STABLE,
        craft_ctrl_wf(old(craft)@),
        craft_pos_ok(old(craft)@),
    ensures
        final(craft)@ == player_tick_s(old(craft)@, keys, dt as int),
        craft_ctrl_wf(final(craft)@),
        bounded_v(final(craft)@.position, 1_100_000_000_000_000_000),
{
    proof {
        crate::input::lemma_shaper_preserves_wf(old(craft)@, keys, dt as int);
        lemma_unit_q_bounded(old(craft)@.orientation);
    }
    input_controls_ship(craft, keys, dt);
    update_ship_physics(craft, dt);
}

/// The craft after a whole sequence of ticks under one key state.
pub open spec fn run_ticks_s(c: CraftV, k: KeyState, dts: Seq<int>) -> CraftV
    decreases dts.len(),
{
    if dts.len() == 0 {
        c
    } else {
        run_ticks_s(player_tick_s(c, k, dts[0]), k, dts.skip(1))
    }
}

/// Orientation unit invariant: after any flight-dynamics tick — any
/// tick length, any control axis values — the orientation is again a
/// unit quaternion within tolerance (6 micro-units, inside the 1e-5
/// budget). With the shaper in front, the invariant holds of every
/// player tick.
pub proof fn lemma_orientation_unit_invariant(c: CraftV, k: KeyState, dt: int)
    requires
        unit_q(c.orientation),
    ensures
        unit_q(flight_s(c, dt).orientation),
        unit_q(player_tick_s(c, k, dt).orientation),
{
    let composed = mul_q(
        mul_q(rot_y_s(fx_mul_s(fx_mul_s(c.yaw_input, YAW_SPEED as int), dt)), c.orientation),
        rot_x_s(fx_mul_s(fx_mul_s(c.pitch_input, PITCH_SPEED as int), dt)),
    );
    if norm_q(composed) >= NORM_FLOOR as int {
        lemma_renorm_q_unit(composed);
    }
    let c2 = shaper_s(c, k, dt);
    let composed2 = mul_q(
        mul_q(rot_y_s(fx_mul_s(fx_mul_s(c2.yaw_input, YAW_SPEED as int), dt)), c2.orientation),
        rot_x_s(fx_mul_s(fx_mul_s(c2.pitch_input, PITCH_SPEED as int), dt)),
    );
    if norm_q(composed2) >= NORM_FLOOR as int {
        lemma_renorm_q_unit(composed2);
    }
}

/// Speed clamp: the forward speed stays in `[0, MAX_SPEED]` across any
/// player tick with a non-negative tick length.
pub proof fn lemma_speed_clamp(c: CraftV, k: KeyState, dt: int)
    requires
        0 <= c.forward_speed <= MAX_SPEED as int,
        0 <= dt,
    ensures
        0 <= player_tick_s(c, k, dt).forward_speed <= MAX_SPEED as int,
{
    crate::input::lemma_speed_clamped(c, k, dt);
}

/// Zero-input stasis, one tick: with no keys held and zero speed, a
/// player tick leaves the position unchanged and the speed at zero.
pub proof fn lemma_stasis_tick(c: CraftV, dt: int)
    requires
        c.forward_speed == 0,
    ensures
        player_tick_s(c, no_keys(), dt).position == c.position,
        player_tick_s(c, no_keys(), dt).forward_speed == 0,
{
    let c2 = shaper_s(c, no_keys(), dt);
    let fwd = rotate_s(flight_s(c2, dt).orientation, forward_axis());
    lemma_scale_zero(fwd, dt);
    assert(add_v(c2.position, scale_v(scale_v(fwd, 0), dt)) == c2.position);
}

/// Scaling by a zero speed gives the zero vector, whatever `dt` is.
proof fn lemma_scale_zero(v: V3, dt: int)
    ensures
        scale_v(scale_v(v, 0), dt) == (V3 { x: 0, y: 0, z: 0 }),
{
    lemma_tdiv(0, FX_ONE as int);
    assert(v.x * 0 == 0 && v.y * 0 == 0 && v.z * 0 == 0) by (nonlinear_arith);
    assert(scale_v(v, 0) == (V3 { x: 0, y: 0, z: 0 }));
    assert(0 * dt == 0) by (nonlinear_arith);
}

/// Zero-input stasis, any number of ticks: with no keys held and zero
/// initial speed, the craft's position never changes.
pub proof fn lemma_stasis_run(c: CraftV, dts: Seq<int>)
    requires
        c.forward_speed == 0,
    ensures
        run_ticks_s(c, no_keys(), dts).position == c.position,
        run_ticks_s(c, no_keys(), dts).forward_speed == 0,
    decreases dts.len(),
{
    if dts.len() > 0 {
        lemma_stasis_tick(c, dts[0]);
        lemma_stasis_run(player_tick_s(c, no_keys(), dts[0]), dts.skip(1));
    }
}

/// The craft invariant as a whole — unit orientation, clamped speed,
/// bounded axes — is preserved by every player tick up to `DT_STABLE`,
/// and hence by any run of such ticks.
pub proof fn lemma_craft_wf_run(c: CraftV, k: KeyState, dts: Seq<int>)
    requires
        craft_ctrl_wf(c),
        forall|i: int| 0 <= i < dts.len() ==> 0 <= #[trigger] dts[i] <= DT_STABLE as int,
    ensures
        craft_ctrl_wf(run_ticks_s(c, k, dts)),
    decreases dts.len(),
{
    if dts.len() > 0 {
        crate::input::lemma_shaper_preserves_wf(c, k, dts[0]);
        lemma_orientation_unit_invariant(c, k, dts[0]);
        lemma_craft_wf_run(player_tick_s(c, k, dts[0]), k, dts.skip(1));
    }
}

} // verus!

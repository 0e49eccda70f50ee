//! Input shaping and flight dynamics: the orientation unit invariant,
//! the speed clamp, zero-input stasis, and one exact yaw scenario.

use flightcore::craft::{Craft, AXIS_MAX, MAX_SPEED};
use flightcore::flight::{player_tick, update_ship_physics};
use flightcore::input::{input_controls_ship, KeyState};
use flightcore::quat::QuatFx;
use flightcore::vec3::Vec3Fx;

const DT_60HZ: i64 = 16_666;

fn held(f: impl Fn(&mut KeyState)) -> KeyState {
    let mut k = KeyState::none();
    f(&mut k);
    k
}

#[test]
fn orientation_stays_unit_over_many_ticks() {
    let mut craft = Craft::new();
    craft.yaw_input = 500_000;
    craft.pitch_input = 300_000;
    for _ in 0..500 {
        update_ship_physics(&mut craft, DT_60HZ);
        let n = craft.orientation.norm();
        assert!((n - 1_000_000).abs() <= 6, "orientation norm drifted: {n}");
    }
}

#[test]
fn orientation_stays_unit_with_live_input() {
    let mut craft = Craft::new();
    let keys = held(|k| {
        k.yaw_left = true;
        k.pitch_down = true;
        k.throttle_up = true;
    });
    for _ in 0..300 {
        player_tick(&mut craft, keys, DT_60HZ);
        let n = craft.orientation.norm();
        assert!((n - 1_000_000).abs() <= 6);
    }
}

#[test]
fn forward_speed_clamped_above() {
    let mut craft = Craft::new();
    let keys = held(|k| k.throttle_up = true);
    // 2.5 units of speed per 0.125 s tick: 400 ticks reach the cap.
    for _ in 0..400 {
        input_controls_ship(&mut craft, keys, 125_000);
        assert!(craft.forward_speed <= MAX_SPEED);
        assert!(craft.forward_speed >= 0);
    }
    assert_eq!(craft.forward_speed, MAX_SPEED);
    input_controls_ship(&mut craft, keys, 125_000);
    assert_eq!(craft.forward_speed, MAX_SPEED);
}

#[test]
fn forward_speed_clamped_below() {
    let mut craft = Craft::new();
    craft.forward_speed = 4_000_000;
    let keys = held(|k| k.throttle_down = true);
    for _ in 0..3 {
        input_controls_ship(&mut craft, keys, 125_000);
    }
    // 4.0 minus three 2.5 steps floors at zero.
    assert_eq!(craft.forward_speed, 0);
    input_controls_ship(&mut craft, keys, 125_000);
    assert_eq!(craft.forward_speed, 0);
}

#[test]
fn both_throttles_cancel_through_both_clamps() {
    let mut craft = Craft::new();
    let keys = held(|k| {
        k.throttle_up = true;
        k.throttle_down = true;
    });
    input_controls_ship(&mut craft, keys, 125_000);
    // Up adds a step, down removes the same step.
    assert_eq!(craft.forward_speed, 0);
}

#[test]
fn zero_input_zero_speed_is_stasis() {
    let mut craft = Craft::new();
    craft.pitch_input = 300_000;
    craft.yaw_input = -400_000;
    for _ in 0..100 {
        player_tick(&mut craft, KeyState::none(), DT_60HZ);
        assert_eq!(craft.position, Vec3Fx::zero());
        assert_eq!(craft.forward_speed, 0);
    }
}

#[test]
fn axes_smooth_toward_deflection_within_bounds() {
    let mut craft = Craft::new();
    let keys = held(|k| k.yaw_left = true);
    for _ in 0..200 {
        player_tick(&mut craft, keys, DT_60HZ);
        assert!(craft.yaw_input.abs() <= AXIS_MAX);
        assert!(craft.bank.abs() <= AXIS_MAX);
    }
    // After 200 ticks the axis has essentially converged to +pi/4.
    assert!(craft.yaw_input > AXIS_MAX - 2_000);
}

#[test]
fn long_tick_overshoots_deflection() {
    // One full second at response rate 8 gives a smoothing factor of
    // 8.0: the axis lands far past the pi/4 target (the documented
    // unclamped-lerp caveat).
    let mut craft = Craft::new();
    let keys = held(|k| k.yaw_left = true);
    input_controls_ship(&mut craft, keys, 1_000_000);
    assert_eq!(craft.yaw_input, 6_283_184);
    assert_eq!(craft.bank, 2_356_194);
}

#[test]
fn yaw_scenario_exact_quaternion() {
    // Identity orientation, yaw_input = 0.5, pitch_input = 0, zero
    // speed, one 1/60 s tick: the position must not move, and the
    // orientation must be a pure Y rotation by 0.5 * 1.25 / 60 rad
    // (half-angle sine 5208, cosine 999987 micro-units, renormalized
    // to exactly unit length).
    let mut craft = Craft::new();
    craft.yaw_input = 500_000;
    update_ship_physics(&mut craft, DT_60HZ);
    assert_eq!(craft.position, Vec3Fx::zero());
    let q = craft.orientation;
    assert_eq!(q, QuatFx { x: 0, y: 5_208, z: 0, w: 999_987 });
    // Within tolerance of the exact angle 0.0104167 rad: sin of the
    // half angle is 0.0052083 +- 1e-5.
    assert!((q.y - 5_208).abs() <= 10);
    assert_eq!(craft.orientation.norm(), 1_000_000);
}

#[test]
fn forward_motion_is_along_minus_z() {
    let mut craft = Craft::new();
    craft.forward_speed = 60_000_000; // 60 units/s
    update_ship_physics(&mut craft, 1_000_000);
    // One second straight ahead: 60 units along local -Z.
    assert_eq!(craft.position, Vec3Fx::new(0, 0, -60_000_000));
}

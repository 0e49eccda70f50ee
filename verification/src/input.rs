//! Input shaper: raw key state to smoothed control axes.
//!
//! Each tick, the six logical buttons and the tick length `dt` update
//! the craft's forward speed (additively, clamped to `[0, MAX_SPEED]`)
//! and its pitch/yaw/bank axes (exponentially smoothed toward the held
//! deflection). The smoothing factor `response * dt` is deliberately
//! not clamped to `[0, 1]`; ticks longer than `DT_STABLE` overshoot the
//! target, exactly as `shaper_s` states.

use vstd::prelude::*;

use crate::craft::{
    ACCELERATION, AXIS_MAX, BANK_RESPONSE, Craft, CraftV, INPUT_RESPONSE, MAX_SPEED, craft_ctrl_wf,
};
use crate::fx::{FX_ONE, abs_i, fx_mul, fx_mul_s, fx_lerp, lemma_tdiv, lemma_tdiv_hull, lerp_s};

verus! {

/// Longest tick (0.125 s) for which the axis smoothing factor
/// `INPUT_RESPONSE * dt` stays at or below 1, so that smoothing cannot
/// overshoot full deflection.
pub const DT_STABLE: i64 = 125_000;

/// Longest tick the shaper accepts at all (2 s); beyond `DT_STABLE` the
/// axes may overshoot, but every value is still computed exactly.
pub const DT_MAX: i64 = 2_000_000;

/// Which of the six logical buttons are held this tick.
#[derive(Clone, Copy, PartialEq, Eq, Structural, Debug)]
pub struct KeyState {
    pub throttle_up: bool,
    pub throttle_down: bool,
    pub pitch_up: bool,
    pub pitch_down: bool,
    pub yaw_left: bool,
    pub yaw_right: bool,
}

impl KeyState {
    /// No button held.
    pub fn none() -> (r: KeyState)
        ensures
            r == no_keys(),
    {
        KeyState {
            throttle_up: false,
            throttle_down: false,
            pitch_up: false,
            pitch_down: false,
            yaw_left: false,
            yaw_right: false,
        }
    }
}

/// The all-released key state.
pub open spec fn no_keys() -> KeyState {
    KeyState {
        throttle_up: false,
        throttle_down: false,
        pitch_up: false,
        pitch_down: false,
        yaw_left: false,
        yaw_right: false,
    }
}

/// Instantaneous target of one axis: full positive deflection if the
/// positive key is held (the positive key wins when both are held),
/// full negative for the negative key, centered otherwise.
pub open spec fn axis_s(negative: bool, positive: bool) -> int {
    if positive {
        AXIS_MAX as int
    } else if negative {
        -(AXIS_MAX as int)
    } else {
        0
    }
}

/// The shaped craft after one tick of key state `k` over `dt`:
/// throttle first (up then down, each clamped), then the three
/// smoothed axes. Position and orientation are untouched.
pub open spec fn shaper_s(c: CraftV, k: KeyState, dt: int) -> CraftV {
    let step = fx_mul_s(ACCELERATION as int, dt);
    let up = if k.throttle_up {
        if c.forward_speed + step > MAX_SPEED as int {
            MAX_SPEED as int
        } else {
            c.forward_speed + step
        }
    } else {
        c.forward_speed
    };
    let down = if k.throttle_down {
        if up - step < 0 {
            0
        } else {
            up - step
        }
    } else {
        up
    };
    let t = fx_mul_s(INPUT_RESPONSE as int, dt);
    let tb = fx_mul_s(BANK_RESPONSE as int, dt);
    CraftV {
        position: c.position,
        orientation: c.orientation,
        forward_speed: down,
        pitch_input: lerp_s(c.pitch_input, axis_s(k.pitch_up, k.pitch_down), t),
        yaw_input: lerp_s(c.yaw_input, axis_s(k.yaw_right, k.yaw_left), t),
        bank: lerp_s(c.bank, axis_s(k.yaw_right, k.yaw_left), tb),
    }
}

/// One axis target: `negative` and `positive` are the two keys of the
/// axis, checked in that order, so the positive key wins.
pub fn axis_input(negative: bool, positive: bool) -> (r: i64)
    ensures
        r as int == axis_s(negative, positive),
{
    let mut value: i64 = 0;
    if negative {
        value = -AXIS_MAX;
    }
    if positive {
        value = AXIS_MAX;
    }
    value
}

/// Apply one tick of key input to the craft: throttle, then smoothed
/// pitch, yaw and bank. Exactly `shaper_s` of the old state.
pub fn input_controls_ship(craft: &mut Craft, keys: KeyState, dt: i64)
    requires
        0 <= dt <= DT_MAX,
        0 <= old(craft).forward_speed <= MAX_SPEED,
        abs_i(old(craft)@.pitch_input) <= 100_000_000,
        abs_i(old(craft)@.yaw_input) <= 100_000_000,
        abs_i(old(craft)@.bank) <= 100_000_000,
    ensures
        final(craft)@ == shaper_s(old(craft)@, keys, dt as int),
{
    proof {
        lemma_rate_bounds(dt as int);
    }
    let step: i64 = fx_mul(ACCELERATION, dt);
    if keys.throttle_up {
        let s: i64 = craft.forward_speed + step;
        craft.forward_speed = if s > MAX_SPEED {
            MAX_SPEED
        } else {
            s
        };
    }
    if keys.throttle_down {
        let s: i64 = craft.forward_speed - step;
        craft.forward_speed = if s < 0 {
            0
        } else {
            s
        };
    }
    let t: i64 = fx_mul(INPUT_RESPONSE, dt);
    let tb: i64 = fx_mul(BANK_RESPONSE, dt);
    craft.pitch_input = fx_lerp(craft.pitch_input, axis_input(keys.pitch_up, keys.pitch_down), t);
    craft.yaw_input = fx_lerp(craft.yaw_input, axis_input(keys.yaw_right, keys.yaw_left), t);
    craft.bank = fx_lerp(craft.bank, axis_input(keys.yaw_right, keys.yaw_left), tb);
}

/// For ticks up to `DT_MAX` the acceleration step and the smoothing
/// factors are non-negative and small.
proof fn lemma_rate_bounds(dt: int)
    requires
        0 <= dt <= DT_MAX as int,
    ensures
        0 <= fx_mul_s(ACCELERATION as int, dt) <= 40_000_000,
        0 <= fx_mul_s(INPUT_RESPONSE as int, dt) <= 16_000_000,
        0 <= fx_mul_s(BANK_RESPONSE as int, dt) <= 6_000_000,
        crate::fx::mul_ok(ACCELERATION as int, dt),
        crate::fx::mul_ok(INPUT_RESPONSE as int, dt),
        crate::fx::mul_ok(BANK_RESPONSE as int, dt),
{
    lemma_one_rate(ACCELERATION as int, dt, 40_000_000);
    lemma_one_rate(INPUT_RESPONSE as int, dt, 16_000_000);
    lemma_one_rate(BANK_RESPONSE as int, dt, 6_000_000);
}

/// One response rate times a tick length: non-negative and bounded.
proof fn lemma_one_rate(rate: int, dt: int, cap: int)
    requires
        0 <= rate,
        0 <= dt,
        0 <= cap <= i64::MAX as int,
        rate * dt <= cap * (FX_ONE as int),
    ensures
        0 <= fx_mul_s(rate, dt) <= cap,
        crate::fx::mul_ok(rate, dt),
{
    lemma_tdiv(rate * dt, FX_ONE as int);
    assert(rate * dt >= 0) by (nonlinear_arith)
        requires
            rate >= 0,
            dt >= 0,
    ;
    crate::fx::lemma_fx_mul_s_le(rate, dt, cap);
}

/// For ticks up to `DT_STABLE` the smoothing factors stay at or below
/// one, so each smoothed axis lands between its old value and its
/// target: full deflection is never overshot and `craft_ctrl_wf` is
/// preserved (speed-clamp preservation holds for every `dt >= 0`).
pub proof fn lemma_shaper_preserves_wf(c: CraftV, k: KeyState, dt: int)
    requires
        craft_ctrl_wf(c),
        0 <= dt <= DT_STABLE as int,
    ensures
        craft_ctrl_wf(shaper_s(c, k, dt)),
        shaper_s(c, k, dt).position == c.position,
        shaper_s(c, k, dt).orientation == c.orientation,
{
    lemma_rate_bounds(dt);
    lemma_one_rate(INPUT_RESPONSE as int, dt, 1_000_000);
    lemma_one_rate(BANK_RESPONSE as int, dt, 1_000_000);
    lemma_speed_clamped(c, k, dt);
    let t = fx_mul_s(INPUT_RESPONSE as int, dt);
    let tb = fx_mul_s(BANK_RESPONSE as int, dt);
    lemma_lerp_hull(c.pitch_input, axis_s(k.pitch_up, k.pitch_down), t);
    lemma_lerp_hull(c.yaw_input, axis_s(k.yaw_right, k.yaw_left), t);
    lemma_lerp_hull(c.bank, axis_s(k.yaw_right, k.yaw_left), tb);
}

/// The speed clamp: for any non-negative tick length, the shaped speed
/// stays in `[0, MAX_SPEED]`.
pub proof fn lemma_speed_clamped(c: CraftV, k: KeyState, dt: int)
    requires
        0 <= c.forward_speed <= MAX_SPEED as int,
        0 <= dt,
    ensures
        0 <= shaper_s(c, k, dt).forward_speed <= MAX_SPEED as int,
{
    lemma_tdiv(ACCELERATION as int * dt, FX_ONE as int);
    assert(ACCELERATION as int * dt >= 0) by (nonlinear_arith)
        requires
            dt >= 0,
    ;
}

/// A smoothing factor in `[0, 1]` keeps the smoothed axis inside the
/// hull of its old value and its (at most full-deflection) target.
proof fn lemma_lerp_hull(a: int, b: int, t: int)
    requires
        abs_i(a) <= AXIS_MAX as int,
        abs_i(b) <= AXIS_MAX as int,
        0 <= t <= FX_ONE as int,
    ensures
        abs_i(lerp_s(a, b, t)) <= AXIS_MAX as int,
{
    lemma_tdiv_hull(t, b - a, FX_ONE as int);
}

} // verus!

//! The player craft: pose, speed and smoothed control axes.
//!
//! All scalars are fixed-point micro-units (`crate::fx`). The craft is
//! created once at simulation start with the default pose and then
//! mutated every tick, first by the input shaper and then by the flight
//! dynamics.

use vstd::prelude::*;

use crate::fx::{FX_ONE, abs_i, sq};
use crate::quat::{Q4, QuatFx, identity_q, norm_q, unit_q};
use crate::vec3::{V3, Vec3Fx, bounded_v, zero_v};

verus! {

/// Hard clamp on the forward speed (1000.0 units/s).
pub const MAX_SPEED: i64 = 1_000_000_000;

/// Forward acceleration while a throttle key is held (20.0 units/s^2).
pub const ACCELERATION: i64 = 20_000_000;

/// Pitch rate scale (1.5 rad/s per unit of input).
pub const PITCH_SPEED: i64 = 1_500_000;

/// Yaw rate scale (1.25 rad/s per unit of input).
pub const YAW_SPEED: i64 = 1_250_000;

/// Exponential response rate of the pitch/yaw axes (8.0 per second).
pub const INPUT_RESPONSE: i64 = 8_000_000;

/// Exponential response rate of the cosmetic bank axis (3.0 per second).
pub const BANK_RESPONSE: i64 = 3_000_000;

/// Full deflection of a control axis: a quarter turn, pi/4 radians.
pub const AXIS_MAX: i64 = 785_398;

/// The player craft.
#[derive(Clone, Copy, PartialEq, Eq, Structural, Debug)]
pub struct Craft {
    /// World-space location, mutated only by the flight dynamics.
    pub position: Vec3Fx,
    /// Unit orientation quaternion, renormalized every tick.
    pub orientation: QuatFx,
    /// Speed along the local forward axis, clamped to `[0, MAX_SPEED]`.
    pub forward_speed: i64,
    /// Smoothed pitch control axis.
    pub pitch_input: i64,
    /// Smoothed yaw control axis.
    pub yaw_input: i64,
    /// Cosmetic roll derived from the yaw axis; never affects physics.
    pub bank: i64,
}

/// The mathematical model of a craft.
pub struct CraftV {
    pub position: V3,
    pub orientation: Q4,
    pub forward_speed: int,
    pub pitch_input: int,
    pub yaw_input: int,
    pub bank: int,
}

impl View for Craft {
    type V = CraftV;

    open spec fn view(&self) -> CraftV {
        CraftV {
            position: self.position@,
            orientation: self.orientation@,
            forward_speed: self.forward_speed as int,
            pitch_input: self.pitch_input as int,
            yaw_input: self.yaw_input as int,
            bank: self.bank as int,
        }
    }
}

/// The craft invariant on everything but the position: the orientation
/// is a near-unit quaternion, the speed is inside its clamp range and
/// every control axis is within full deflection. Established at
/// creation and preserved by each tick (for tick lengths up to
/// `input::DT_STABLE`).
pub open spec fn craft_ctrl_wf(c: CraftV) -> bool {
    &&& unit_q(c.orientation)
    &&& 0 <= c.forward_speed <= MAX_SPEED as int
    &&& abs_i(c.pitch_input) <= AXIS_MAX as int
    &&& abs_i(c.yaw_input) <= AXIS_MAX as int
    &&& abs_i(c.bank) <= AXIS_MAX as int
}

/// Position components stay far from the `i64` edge; one tick moves the
/// craft by less than 2^34 micro-units, so this leaves room for decades
/// of ticks.
pub open spec fn craft_pos_ok(c: CraftV) -> bool {
    bounded_v(c.position, 1_000_000_000_000_000_000)
}

impl Craft {
    /// The default pose the craft is created with: at the origin, the
    /// identity orientation, at rest, all axes centered.
    pub fn new() -> (r: Craft)
        ensures
            r@.position == zero_v(),
            r@.orientation == identity_q(),
            r@.forward_speed == 0,
            r@.pitch_input == 0,
            r@.yaw_input == 0,
            r@.bank == 0,
            craft_ctrl_wf(r@),
            craft_pos_ok(r@),
    {
        proof {
            lemma_identity_unit();
        }
        Craft {
            position: Vec3Fx::zero(),
            orientation: QuatFx::identity(),
            forward_speed: 0,
            pitch_input: 0,
            yaw_input: 0,
            bank: 0,
        }
    }
}

/// The identity quaternion has length exactly one unit.
pub proof fn lemma_identity_unit()
    ensures
        norm_q(identity_q()) == FX_ONE as int,
        unit_q(identity_q()),
{
    assert(sq(0) == 0 && sq(1_000_000) == 1_000_000_000_000 && sq(1_000_001)
        == 1_000_002_000_001) by (nonlinear_arith);
    crate::fx::lemma_sqrt_floor_unique(1_000_000_000_000, 1_000_000);
}

} // verus!

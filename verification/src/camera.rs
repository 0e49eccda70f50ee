//! Camera rig and view modes.
//!
//! The active `ViewMode` cycles third-person, free-pan, first-person on
//! each mode-switch press. First person snaps the camera to the craft
//! and looks 20 units along the craft's forward axis, rolled by the
//! cosmetic bank; third person smooths the camera toward a fixed offset
//! behind and above the craft (per-tick factor 0.2, deliberately not
//! `dt`-scaled) and looks at the craft; free pan leaves the camera to
//! the host entirely. The rig's only state is the camera position, the
//! smoothing memory.
//!
//! The mesh-sync outputs also live here: the craft's render rotation
//! (orientation, bank roll, and the half-turn model fix) and the
//! visibility flag (hidden exactly in first person).

use vstd::prelude::*;

use crate::craft::{Craft, CraftV};
use crate::flock::Agent;
use crate::fx::{FX_ONE, abs_i};
use crate::quat::{
    Q4, QuatFx, identity_q, lemma_mul_q_bound, lemma_mul_terms_ok, lemma_renorm_q_unit,
    lemma_unit_q_bounded, mul_q, norm_q, normalize_q, rot_z_s, rotate_s, unit_q,
};
use crate::vec3::{V3, Vec3Fx, add_v, bounded_v, lerp_v, normalize_v};

verus! {

/// Third-person smoothing factor: 0.2 per tick.
pub const TPV_SMOOTH: i64 = 200_000;

/// Largest craft coordinate the rig accepts (9e8 world units).
pub const CAM_POS_LIM: i64 = 900_000_000_000_000;

/// The rig's own position bound: the craft bound plus the slack of one
/// rotated third-person offset.
pub const CAM_RIG_LIM: i64 = 900_007_000_000_000;

/// The active camera behavior.
#[derive(Clone, Copy, PartialEq, Eq, Structural, Debug)]
pub enum ViewMode {
    FirstPerson,
    ThirdPerson,
    FreePan,
}

/// The three-state cycle a mode-switch press walks through.
pub open spec fn next_mode(m: ViewMode) -> ViewMode {
    match m {
        ViewMode::FirstPerson => ViewMode::ThirdPerson,
        ViewMode::ThirdPerson => ViewMode::FreePan,
        ViewMode::FreePan => ViewMode::FirstPerson,
    }
}

/// Advance the view mode by one mode-switch press.
pub fn switch_camera_mode(m: ViewMode) -> (r: ViewMode)
    ensures
        r == next_mode(m),
{
    match m {
        ViewMode::FirstPerson => ViewMode::ThirdPerson,
        ViewMode::ThirdPerson => ViewMode::FreePan,
        ViewMode::FreePan => ViewMode::FirstPerson,
    }
}

/// Three presses walk the full cycle back to the starting mode,
/// whichever mode that is.
pub proof fn lemma_mode_cycle(m: ViewMode)
    ensures
        next_mode(next_mode(next_mode(m))) == m,
{
}

/// Whether the player mesh is rendered: hidden exactly in first person.
pub open spec fn visible_s(m: ViewMode) -> bool {
    !(m is FirstPerson)
}

/// The player-mesh visibility flag for the renderer.
pub fn player_visible(m: ViewMode) -> (r: bool)
    ensures
        r == visible_s(m),
{
    match m {
        ViewMode::FirstPerson => false,
        _ => true,
    }
}

/// The camera rig: its one piece of state is the camera position (the
/// third-person smoothing memory; first person overwrites it).
#[derive(Clone, Copy, PartialEq, Eq, Structural, Debug)]
pub struct CameraRig {
    pub position: Vec3Fx,
}

/// What the renderer applies each tick: put the camera at `position`,
/// aim it at `look_target` (up = world Y), then roll it by `roll`
/// around its local forward axis.
#[derive(Clone, Copy, PartialEq, Eq, Structural, Debug)]
pub struct CameraPose {
    pub position: Vec3Fx,
    pub look_target: Vec3Fx,
    pub roll: i64,
}

/// The model of a camera pose.
pub struct PoseV {
    pub position: V3,
    pub look_target: V3,
    pub roll: int,
}

impl View for CameraPose {
    type V = PoseV;

    open spec fn view(&self) -> PoseV {
        PoseV {
            position: self.position@,
            look_target: self.look_target@,
            roll: self.roll as int,
        }
    }
}

/// First-person look target: 20 units along the craft's local forward
/// (negative Z) axis.
pub open spec fn fpv_target_s(c: CraftV) -> V3 {
    add_v(c.position, rotate_s(c.orientation, V3 { x: 0, y: 0, z: -20_000_000 }))
}

/// The first-person pose: camera exactly at the craft, looking forward,
/// rolled by the craft's bank.
pub open spec fn fpv_pose_s(c: CraftV) -> PoseV {
    PoseV { position: c.position, look_target: fpv_target_s(c), roll: c.bank }
}

/// Third-person desired position: the fixed local offset `(0, -5, -30)`
/// negated and rotated into world space, from the craft.
pub open spec fn tpv_desired_s(c: CraftV) -> V3 {
    add_v(c.position, rotate_s(c.orientation, V3 { x: 0, y: 5_000_000, z: 30_000_000 }))
}

/// The smoothed third-person camera position after one tick.
pub open spec fn tpv_position_s(rig: V3, c: CraftV) -> V3 {
    lerp_v(rig, tpv_desired_s(c), TPV_SMOOTH as int)
}

/// The third-person pose: the smoothed camera position, looking at the
/// craft itself, with no roll.
pub open spec fn tpv_pose_s(rig: V3, c: CraftV) -> PoseV {
    PoseV { position: tpv_position_s(rig, c), look_target: c.position, roll: 0 }
}

/// Compute this tick's camera pose and new rig state. Free pan, and a
/// tick without a player craft, are no-ops: the rig is untouched and
/// no pose is produced.
pub fn update_camera(rig: &mut CameraRig, mode: ViewMode, craft: Option<&Craft>) -> (r: Option<
    CameraPose>)
    requires
        bounded_v(old(rig).position@, CAM_RIG_LIM as int),
        craft is Some ==> unit_q(craft->0@.orientation) && bounded_v(
            craft->0@.position,
            CAM_POS_LIM as int,
        ),
    ensures
        craft is None || mode is FreePan ==> *final(rig) == *old(rig) && r is None,
        craft is Some && mode is FirstPerson ==> final(rig).position == craft->0.position && r
            is Some && r->0@ == fpv_pose_s(craft->0@),
        craft is Some && mode is ThirdPerson ==> final(rig).position@ == tpv_position_s(
            old(rig).position@,
            craft->0@,
        ) && r is Some && r->0@ == tpv_pose_s(old(rig).position@, craft->0@),
        bounded_v(final(rig).position@, CAM_RIG_LIM as int),
{
    match craft {
        Option::None => Option::None,
        Option::Some(c) => {
            match mode {
                ViewMode::FreePan => Option::None,
                ViewMode::FirstPerson => Option::Some(update_camera_fpv(rig, c)),
                ViewMode::ThirdPerson => Option::Some(update_camera_tpv(rig, c)),
            }
        },
    }
}

/// First person: snap the camera to the craft, look along its forward
/// axis, roll by the bank.
pub fn update_camera_fpv(rig: &mut CameraRig, craft: &Craft) -> (r: CameraPose)
    requires
        unit_q(craft@.orientation),
        bounded_v(craft@.position, CAM_POS_LIM as int),
    ensures
        final(rig).position == craft.position,
        r@ == fpv_pose_s(craft@),
        bounded_v(final(rig).position@, CAM_RIG_LIM as int),
{
    proof {
        lemma_unit_q_bounded(craft@.orientation);
    }
    let fwd: Vec3Fx = craft.orientation.rotate(Vec3Fx::new(0, 0, -20_000_000));
    let target: Vec3Fx = craft.position.add(fwd);
    rig.position = craft.position;
    CameraPose { position: craft.position, look_target: target, roll: craft.bank }
}

/// Third person: smooth the camera toward the offset position behind
/// and above the craft, and look at the craft.
pub fn update_camera_tpv(rig: &mut CameraRig, craft: &Craft) -> (r: CameraPose)
    requires
        unit_q(craft@.orientation),
        bounded_v(craft@.position, CAM_POS_LIM as int),
        bounded_v(old(rig).position@, CAM_RIG_LIM as int),
    ensures
        final(rig).position@ == tpv_position_s(old(rig).position@, craft@),
        r@ == tpv_pose_s(old(rig).position@, craft@),
        bounded_v(final(rig).position@, CAM_RIG_LIM as int),
{
    proof {
        lemma_unit_q_bounded(craft@.orientation);
    }
    let off: Vec3Fx = craft.orientation.rotate(Vec3Fx::new(0, 5_000_000, 30_000_000));
    let desired: Vec3Fx = craft.position.add(off);
    proof {
        lemma_lerp_stays(rig.position@.x, desired@.x);
        lemma_lerp_stays(rig.position@.y, desired@.y);
        lemma_lerp_stays(rig.position@.z, desired@.z);
    }
    rig.position = rig.position.lerp(desired, TPV_SMOOTH);
    CameraPose { position: rig.position, look_target: craft.position, roll: 0 }
}

/// The smoothing lerp stays inside the hull of camera and target, so
/// the camera position stays within the coordinate range. The target
/// is within `CAM_POS_LIM` plus the rotated offset's slack.
proof fn lemma_lerp_stays(a: int, b: int)
    requires
        abs_i(a) <= CAM_RIG_LIM as int,
        abs_i(b) <= CAM_RIG_LIM as int,
    ensures
        abs_i(crate::fx::lerp_s(a, b, TPV_SMOOTH as int)) <= CAM_RIG_LIM as int,
{
    crate::fx::lemma_tdiv_hull(TPV_SMOOTH as int, b - a, FX_ONE as int);
}

/// The rotation that carries the world up axis onto the unit direction
/// `dir`: the half-angle quaternion `(up x dir, 1 + up . dir)`,
/// renormalized. With `up = (0, 1, 0)` the cross and dot collapse to
/// plain components. Degenerate directions (zero, or straight down,
/// where the arc is ambiguous) fall back to the identity.
pub open spec fn arc_from_up_s(dir: V3) -> Q4 {
    let q = Q4 { x: dir.z, y: 0, z: -dir.x, w: (FX_ONE as int) + dir.y };
    if norm_q(q) >= crate::quat::NORM_FLOOR as int {
        normalize_q(q)
    } else {
        identity_q()
    }
}

/// The transform the renderer gives one enemy mesh: the agent's
/// position, nose turned from the authored up axis onto its direction
/// of travel. Always a unit rotation.
pub fn sync_enemy_mesh_transform(agent: &Agent) -> (r: (Vec3Fx, QuatFx))
    requires
        bounded_v(agent@.velocity, 100_000_000_000_000_000),
    ensures
        r.0 == agent.position,
        r.1@ == arc_from_up_s(normalize_v(agent@.velocity)),
        unit_q(r.1@),
{
    let dir: Vec3Fx = agent.velocity.normalize();
    let q: QuatFx = QuatFx { x: dir.z, y: 0, z: -dir.x, w: FX_ONE + dir.y };
    let n: i64 = q.norm();
    if n >= crate::quat::NORM_FLOOR {
        proof {
            lemma_renorm_q_unit(q@);
        }
        (agent.position, q.normalize())
    } else {
        proof {
            crate::craft::lemma_identity_unit();
        }
        (agent.position, QuatFx::identity())
    }
}

/// The craft's render rotation: orientation, then the cosmetic bank
/// roll around the local Z axis, then the half-turn about Y that fixes
/// the model's authored facing.
pub open spec fn mesh_rotation_s(c: CraftV) -> Q4 {
    mul_q(mul_q(c.orientation, rot_z_s(c.bank)), Q4 { x: 0, y: FX_ONE as int, z: 0, w: 0 })
}

/// The transform the renderer gives the player mesh: the craft's
/// position and its render rotation.
pub fn sync_player_mesh_transform(craft: &Craft) -> (r: (Vec3Fx, QuatFx))
    requires
        unit_q(craft@.orientation),
        abs_i(craft@.bank) <= 2_000_000,
    ensures
        r.0 == craft.position,
        r.1@ == mesh_rotation_s(craft@),
{
    proof {
        lemma_unit_q_bounded(craft@.orientation);
    }
    let bank_rot: QuatFx = QuatFx::from_rotation_z(craft.bank);
    proof {
        lemma_mul_terms_ok(craft@.orientation, bank_rot@, 1_000_006, 10_000_000);
        lemma_mul_q_bound(craft@.orientation, bank_rot@, 1_000_006, 10_000_000, 10_000_060);
    }
    let q1: QuatFx = craft.orientation.mul(bank_rot);
    let flip: QuatFx = QuatFx { x: 0, y: FX_ONE, z: 0, w: 0 };
    proof {
        lemma_mul_terms_ok(q1@, flip@, 40_000_240, 1_000_000);
    }
    let m: QuatFx = q1.mul(flip);
    (craft.position, m)
}

} // verus!

//! View-mode cycle, camera poses, visibility and mesh sync.

use flightcore::camera::{
    player_visible, switch_camera_mode, sync_player_mesh_transform, update_camera, CameraRig,
    ViewMode,
};
use flightcore::craft::Craft;
use flightcore::flock::Agent;
use flightcore::fx::FX_ONE;
use flightcore::quat::QuatFx;
use flightcore::vec3::Vec3Fx;

#[test]
fn mode_cycles_third_free_first_third() {
    // Toggling three times from third person walks the whole cycle.
    let m0 = ViewMode::ThirdPerson;
    let m1 = switch_camera_mode(m0);
    assert_eq!(m1, ViewMode::FreePan);
    let m2 = switch_camera_mode(m1);
    assert_eq!(m2, ViewMode::FirstPerson);
    let m3 = switch_camera_mode(m2);
    assert_eq!(m3, ViewMode::ThirdPerson);
}

#[test]
fn player_hidden_exactly_in_first_person() {
    assert!(!player_visible(ViewMode::FirstPerson));
    assert!(player_visible(ViewMode::ThirdPerson));
    assert!(player_visible(ViewMode::FreePan));
}

#[test]
fn first_person_snaps_and_looks_forward() {
    let mut craft = Craft::new();
    craft.position = Vec3Fx::new(10_000_000, 0, 0);
    craft.bank = 123_456;
    let mut rig = CameraRig { position: Vec3Fx::zero() };
    let pose = update_camera(&mut rig, ViewMode::FirstPerson, Some(&craft)).unwrap();
    assert_eq!(pose.position, craft.position);
    // Identity orientation: looking 20 units down -Z from the craft.
    assert_eq!(pose.look_target, Vec3Fx::new(10_000_000, 0, -20_000_000));
    assert_eq!(pose.roll, 123_456);
    assert_eq!(rig.position, craft.position);
}

#[test]
fn third_person_smooths_one_fifth_per_tick() {
    let mut craft = Craft::new();
    craft.position = Vec3Fx::new(10_000_000, 0, 0);
    let mut rig = CameraRig { position: Vec3Fx::zero() };
    let pose = update_camera(&mut rig, ViewMode::ThirdPerson, Some(&craft)).unwrap();
    // Desired is craft + (0, 5, 30); the camera moves 20% of the way.
    assert_eq!(rig.position, Vec3Fx::new(2_000_000, 1_000_000, 6_000_000));
    assert_eq!(pose.position, rig.position);
    assert_eq!(pose.look_target, craft.position);
    assert_eq!(pose.roll, 0);
}

#[test]
fn free_pan_and_absent_player_are_no_ops() {
    let craft = Craft::new();
    let before = Vec3Fx::new(7, 8, 9);
    let mut rig = CameraRig { position: before };
    assert!(update_camera(&mut rig, ViewMode::FreePan, Some(&craft)).is_none());
    assert_eq!(rig.position, before);
    assert!(update_camera(&mut rig, ViewMode::ThirdPerson, None).is_none());
    assert_eq!(rig.position, before);
}

#[test]
fn enemy_mesh_turns_nose_along_velocity() {
    // Moving along +Y (the authored up axis): no turn at all.
    let up = Agent {
        position: Vec3Fx::new(1, 2, 3),
        velocity: Vec3Fx::new(0, 7_000_000, 0),
    };
    let (pos, rot) = flightcore::camera::sync_enemy_mesh_transform(&up);
    assert_eq!(pos, up.position);
    assert_eq!(rot, QuatFx { x: 0, y: 0, z: 0, w: FX_ONE });
    // Moving along +X: a quarter turn about -Z, still unit length.
    let side = Agent { position: Vec3Fx::zero(), velocity: Vec3Fx::new(5_000_000, 0, 0) };
    let (_, rot) = flightcore::camera::sync_enemy_mesh_transform(&side);
    assert_eq!(rot, QuatFx { x: 0, y: 0, z: -707_107, w: 707_107 });
    assert!((rot.norm() - FX_ONE).abs() <= 6);
    // A still agent has no direction of travel: identity, not NaN-like
    // garbage.
    let still = Agent { position: Vec3Fx::zero(), velocity: Vec3Fx::zero() };
    let (_, rot) = flightcore::camera::sync_enemy_mesh_transform(&still);
    assert_eq!(rot, QuatFx { x: 0, y: 0, z: 0, w: FX_ONE });
}

#[test]
fn mesh_rotation_applies_half_turn_fix() {
    // Identity orientation, no bank: the render rotation is exactly
    // the authored-model fix, a half turn about Y.
    let craft = Craft::new();
    let (pos, rot) = sync_player_mesh_transform(&craft);
    assert_eq!(pos, Vec3Fx::zero());
    assert_eq!(rot, QuatFx { x: 0, y: FX_ONE, z: 0, w: 0 });
}

use smooth_cameras::controller::{
    change_cursor_mode_message_system, control_system, cursor_center, cursor_transition,
    default_input_map, init, select_active, ChangeCursorModeMessage, ControlMessage, CursorState,
    CursorToggleMode, FpsCameraBundle, FpsCameraController, FpsCameraPlugin, KeyState,
};
use smooth_cameras::fixed::ONE;
use smooth_cameras::look_transform::LookTransform;
use smooth_cameras::vec3::{Vec2, Vec3};

fn locked() -> CursorState {
    CursorState {
        locked: true,
        visible: false,
    }
}

fn unlocked() -> CursorState {
    CursorState {
        locked: false,
        visible: true,
    }
}

fn no_keys() -> KeyState {
    KeyState {
        forward: false,
        left: false,
        backward: false,
        right: false,
        descend: false,
        ascend: false,
    }
}

#[test]
fn trigger_mode_releases_and_relocks() {
    let (s, reset) = cursor_transition(CursorToggleMode::Trigger, true, true, false, locked());
    assert_eq!(s, unlocked());
    assert!(!reset);
    let (s2, reset2) = cursor_transition(CursorToggleMode::Trigger, true, false, true, unlocked());
    assert_eq!(s2, locked());
    assert!(reset2);
    let (s3, reset3) = cursor_transition(CursorToggleMode::Trigger, true, false, false, locked());
    assert_eq!(s3, locked());
    assert!(!reset3);
}

#[test]
fn flip_mode_toggles_on_press() {
    let (s, reset) = cursor_transition(CursorToggleMode::Flip, true, true, false, locked());
    assert_eq!(s, unlocked());
    assert!(!reset);
    let (s2, reset2) = cursor_transition(CursorToggleMode::Flip, true, true, false, unlocked());
    assert_eq!(s2, locked());
    assert!(reset2);
    let (s3, _) = cursor_transition(CursorToggleMode::Flip, true, false, true, unlocked());
    assert_eq!(s3, unlocked());
}

#[test]
fn auto_hide_off_never_touches_the_cursor() {
    let (s, reset) = cursor_transition(CursorToggleMode::Trigger, false, true, true, unlocked());
    assert_eq!(s, unlocked());
    assert!(!reset);
}

#[test]
fn first_enabled_controller_wins() {
    let mut a = FpsCameraController::default();
    a.enabled = false;
    let b = FpsCameraController::default();
    let c = FpsCameraController::default();
    assert_eq!(select_active(&vec![]), None);
    assert_eq!(select_active(&vec![a, a]), None);
    assert_eq!(select_active(&vec![a, b, c]), Some(1));
    assert_eq!(select_active(&vec![b, c]), Some(0));
}

#[test]
fn init_locks_and_marks_the_first_auto_hiding_camera() {
    let mut off = FpsCameraController::default();
    off.enabled = false;
    let mut no_hide = FpsCameraController::default();
    no_hide.auto_hide_cursor = false;
    let on = FpsCameraController::default();
    let (state, marked) = init(&vec![off, no_hide, on]);
    assert_eq!(state, locked());
    assert_eq!(marked, Some(2));
    let (_, none_marked) = init(&vec![off, no_hide]);
    assert_eq!(none_marked, None);
}

#[test]
fn mode_change_targets_one_camera() {
    let mut cams = vec![FpsCameraController::default(), FpsCameraController::default()];
    change_cursor_mode_message_system(
        &mut cams,
        ChangeCursorModeMessage {
            mode: CursorToggleMode::Flip,
            camera_entity: Some(1),
        },
    );
    assert_eq!(cams[0].cursor_toggle_mode, CursorToggleMode::Trigger);
    assert_eq!(cams[1].cursor_toggle_mode, CursorToggleMode::Flip);
    // An out-of-range target changes nothing.
    change_cursor_mode_message_system(
        &mut cams,
        ChangeCursorModeMessage {
            mode: CursorToggleMode::Flip,
            camera_entity: Some(9),
        },
    );
    assert_eq!(cams[0].cursor_toggle_mode, CursorToggleMode::Trigger);
}

#[test]
fn mode_change_reaches_every_enabled_camera() {
    let mut disabled = FpsCameraController::default();
    disabled.enabled = false;
    let mut cams = vec![disabled, FpsCameraController::default()];
    change_cursor_mode_message_system(
        &mut cams,
        ChangeCursorModeMessage {
            mode: CursorToggleMode::Flip,
            camera_entity: None,
        },
    );
    assert_eq!(cams[0].cursor_toggle_mode, CursorToggleMode::Trigger);
    assert_eq!(cams[1].cursor_toggle_mode, CursorToggleMode::Flip);
}

#[test]
fn input_map_emits_nothing_without_an_enabled_camera() {
    let mut off = FpsCameraController::default();
    off.enabled = false;
    let msgs = default_input_map(&vec![off], true, &vec![], no_keys());
    assert_eq!(msgs.len(), 0);
}

#[test]
fn input_map_scales_mouse_motion_by_the_sensitivity() {
    let cams = vec![FpsCameraController::default()];
    let motions = vec![Vec2 { x: 60, y: 150 }, Vec2 { x: 40, y: 50 }];
    let msgs = default_input_map(&cams, true, &motions, no_keys());
    assert_eq!(msgs.len(), 1);
    // Sensitivity 0.2 on a summed delta of (100, 200).
    assert_eq!(
        msgs[0],
        ControlMessage::Rotate(Vec2 {
            x: 13107 * 100 / ONE,
            y: 13107 * 200 / ONE
        })
    );
    // With the cursor unlocked the motion is ignored.
    let quiet = default_input_map(&cams, false, &motions, no_keys());
    assert_eq!(quiet[0], ControlMessage::Rotate(Vec2 { x: 0, y: 0 }));
}

#[test]
fn input_map_emits_translations_for_held_keys() {
    let cams = vec![FpsCameraController::default()];
    let mut keys = no_keys();
    keys.forward = true;
    keys.descend = true;
    let msgs = default_input_map(&cams, true, &vec![], keys);
    assert_eq!(msgs.len(), 3);
    let ts = 131072;
    assert_eq!(msgs[1], ControlMessage::TranslateEye(Vec3 { x: 0, y: 0, z: ts }));
    assert_eq!(
        msgs[2],
        ControlMessage::TranslateEye(Vec3 {
            x: 0,
            y: -ts,
            z: 0
        })
    );
}

#[test]
fn control_system_without_messages_keeps_the_eye() {
    let c = FpsCameraController::default();
    let tf = LookTransform {
        eye: Vec3 { x: 0, y: 0, z: 5 * ONE },
        target: Vec3 { x: 0, y: 0, z: 0 },
        up: Vec3 { x: 0, y: ONE, z: 0 },
    };
    let (out, cursor, reset) = control_system(&c, &tf, &vec![], locked(), false, false, ONE / 60);
    assert_eq!(out.eye, tf.eye);
    assert_eq!(out.up, tf.up);
    assert_eq!(cursor, locked());
    assert!(!reset);
    // The target is re-placed at the old distance along the view direction,
    // here within the fixed-point resolution of where it already was.
    assert!((out.target.x - tf.target.x).abs() < 700);
    assert!((out.target.y - tf.target.y).abs() < 700);
    assert!((out.target.z - tf.target.z).abs() < 700);
}

#[test]
fn control_system_translates_in_the_yaw_frame() {
    let c = FpsCameraController::default();
    let tf = LookTransform {
        eye: Vec3 { x: 0, y: 0, z: 5 * ONE },
        target: Vec3 { x: 0, y: 0, z: 0 },
        up: Vec3 { x: 0, y: ONE, z: 0 },
    };
    // A forward message: with yaw zero the rotated z axis is still z, so the
    // eye moves by dt * delta in z only.
    let msgs = vec![ControlMessage::TranslateEye(Vec3 { x: 0, y: 0, z: ONE })];
    let (out, _, _) = control_system(&c, &tf, &msgs, locked(), false, false, ONE);
    assert_eq!(out.eye.y, 0);
    assert!((out.eye.z - (5 * ONE + ONE)).abs() < 700, "z {}", out.eye.z);
    assert!(out.eye.x.abs() < 700);
}

#[test]
fn control_system_handles_the_toggle_key() {
    let c = FpsCameraController::default();
    let tf = LookTransform {
        eye: Vec3 { x: 0, y: 0, z: ONE },
        target: Vec3 { x: 0, y: 0, z: 0 },
        up: Vec3 { x: 0, y: ONE, z: 0 },
    };
    let (_, cursor, reset) = control_system(&c, &tf, &vec![], locked(), true, false, ONE / 60);
    assert_eq!(cursor, unlocked());
    assert!(!reset);
    let (_, cursor2, reset2) = control_system(&c, &tf, &vec![], unlocked(), false, true, ONE / 60);
    assert_eq!(cursor2, locked());
    assert!(reset2);
}

#[test]
fn bundle_and_plugin_construction() {
    let c = FpsCameraController::default();
    let b = FpsCameraBundle::new(
        c,
        Vec3 { x: 0, y: 0, z: 5 * ONE },
        Vec3 { x: 0, y: 0, z: 0 },
        Vec3 { x: 0, y: ONE, z: 0 },
    );
    assert_eq!(b.smoother.weight, c.smoothing_weight);
    assert!(b.smoother.lag_pose.is_none());
    assert_eq!(b.look_transform.eye.z, 5 * ONE);
    let p = FpsCameraPlugin::new(true);
    assert!(p.override_input_system);
    assert!(!FpsCameraPlugin::default().override_input_system);
    assert_eq!(
        FpsCameraController::default().cursor_toggle_mode,
        CursorToggleMode::default()
    );
}

#[test]
fn cursor_center_is_half_the_window() {
    let c = cursor_center(800, 601);
    assert_eq!(c.x, 400);
    assert_eq!(c.y, 300);
}

#[test]
fn control_system_applies_rotations_to_the_view() {
    // Start looking down -z from (0,0,5); a quarter-turn yaw rotation in one
    // second must swing the target to roughly five units along +x.
    let c = FpsCameraController::default();
    let tf = LookTransform {
        eye: Vec3 { x: 0, y: 0, z: 5 * ONE },
        target: Vec3 { x: 0, y: 0, z: 0 },
        up: Vec3 { x: 0, y: ONE, z: 0 },
    };
    let quarter = 102944;
    let msgs = vec![ControlMessage::Rotate(Vec2 { x: quarter, y: 0 })];
    let (out, _, _) = control_system(&c, &tf, &msgs, locked(), false, false, ONE);
    assert_eq!(out.eye, tf.eye);
    assert!((out.target.x - 5 * ONE).abs() < 8000, "target.x {}", out.target.x);
    assert!(out.target.y.abs() < 8000, "target.y {}", out.target.y);
    assert!((out.target.z - 5 * ONE).abs() < 8000, "target.z {}", out.target.z);
}

use vstd::prelude::*;

verus! {

use crate::fixed::{
    ONE, DT_MAX, COORD_MAX, spec_clamp, clamp_fx, fxabs, spec_mul_div, mul_div_fx, spec_isqrt,
};
use crate::angle::{spec_wrap, lemma_wrap_absorb, lemma_wrap_period};
use crate::trig::{sin_fx, cos_fx, spec_sin, spec_cos};
use crate::vec3::{Vec2, Vec3, norm2};
use crate::look_transform::LookTransform;
use crate::look_angles::{LookAngles, DELTA_LIMIT, spec_from_vector, spec_unit_vector};
use crate::smoother::Smoother;

/// How pressing the toggle key changes the cursor lock.
#[derive(Clone, Copy, Debug, PartialEq, Eq, Structural)]
pub enum CursorToggleMode {
    /// Release the cursor while the key is held, lock it again on release.
    Trigger,
    /// Flip the lock state on each key press.
    Flip,
}

impl Default for CursorToggleMode {
    fn default() -> (r: CursorToggleMode)
        ensures
            r == CursorToggleMode::Trigger,
    {
        CursorToggleMode::Trigger
    }
}

/// The cursor's lock and visibility state, handed in and out explicitly.
#[derive(Clone, Copy, Debug, PartialEq, Eq, Structural)]
pub struct CursorState {
    pub locked: bool,
    pub visible: bool,
}

/// A request to change the cursor toggle mode, for one camera or for every
/// enabled one.
#[derive(Clone, Copy, Debug)]
pub struct ChangeCursorModeMessage {
    pub mode: CursorToggleMode,
    /// When given, the index of the camera to change; otherwise every
    /// enabled camera changes.
    pub camera_entity: Option<usize>,
}

/// The first-person camera controller's settings.
#[derive(Clone, Copy, Debug)]
pub struct FpsCameraController {
    pub enabled: bool,
    pub mouse_rotate_sensitivity: Vec2,
    pub translate_sensitivity: i64,
    pub smoothing_weight: i64,
    /// When set, the cursor is locked and hidden while the camera is active.
    pub auto_hide_cursor: bool,
    /// The mode used for toggling cursor visibility and locking.
    pub cursor_toggle_mode: CursorToggleMode,
}

impl FpsCameraController {
    /// Sensitivities within the scaled-product range and a valid weight.
    pub open spec fn wf(self) -> bool {
        &&& -2147483648 <= self.mouse_rotate_sensitivity.x <= 2147483648
        &&& -2147483648 <= self.mouse_rotate_sensitivity.y <= 2147483648
        &&& -2147483648 <= self.translate_sensitivity <= 2147483648
        &&& 0 <= self.smoothing_weight < ONE
    }
}

impl Default for FpsCameraController {
    /// Enabled, with a rotate sensitivity of 0.2, a translate sensitivity of
    /// 2, a smoothing weight of 0.9, and the cursor auto-hidden in trigger
    /// mode, all at the 2^16 fixed-point scale.
    fn default() -> (r: FpsCameraController)
        ensures
            r.enabled,
            r.mouse_rotate_sensitivity == (Vec2 { x: 13107, y: 13107 }),
            r.translate_sensitivity == 131072,
            r.smoothing_weight == 58982,
            r.auto_hide_cursor,
            r.cursor_toggle_mode == CursorToggleMode::Trigger,
            r.wf(),
    {
        FpsCameraController {
            enabled: true,
            mouse_rotate_sensitivity: Vec2 { x: 13107, y: 13107 },
            translate_sensitivity: 131072,
            smoothing_weight: 58982,
            auto_hide_cursor: true,
            cursor_toggle_mode: CursorToggleMode::Trigger,
        }
    }
}

/// One control input: rotate the view, or translate the eye.
#[derive(Clone, Copy, Debug, PartialEq, Eq, Structural)]
pub enum ControlMessage {
    Rotate(Vec2),
    TranslateEye(Vec3),
}

/// Message payloads within the scaled-product range.
pub open spec fn msg_wf(m: ControlMessage) -> bool {
    match m {
        ControlMessage::Rotate(d) => {
            &&& -2147483648 <= d.x <= 2147483648
            &&& -2147483648 <= d.y <= 2147483648
        },
        ControlMessage::TranslateEye(v) => {
            &&& -2147483648 <= v.x <= 2147483648
            &&& -2147483648 <= v.y <= 2147483648
            &&& -2147483648 <= v.z <= 2147483648
        },
    }
}

/// The plugin configuration: only whether the default input map is replaced.
#[derive(Clone, Copy, Debug, PartialEq, Eq, Structural)]
pub struct FpsCameraPlugin {
    pub override_input_system: bool,
}

impl FpsCameraPlugin {
    pub fn new(override_input_system: bool) -> (r: FpsCameraPlugin)
        ensures
            r.override_input_system == override_input_system,
    {
        FpsCameraPlugin { override_input_system }
    }
}

impl Default for FpsCameraPlugin {
    fn default() -> (r: FpsCameraPlugin)
        ensures
            !r.override_input_system,
    {
        FpsCameraPlugin { override_input_system: false }
    }
}

/// Everything a camera entity starts with: the controller settings, the
/// initial pose, and a smoother seeded with the controller's weight.
#[derive(Clone, Copy, Debug)]
pub struct FpsCameraBundle {
    pub controller: FpsCameraController,
    pub look_transform: LookTransform,
    pub smoother: Smoother,
}

impl FpsCameraBundle {
    /// Build a bundle whose pose starts consistent with the controller.
    pub fn new(controller: FpsCameraController, eye: Vec3, target: Vec3, up: Vec3) -> (r:
        FpsCameraBundle)
        requires
            controller.wf(),
        ensures
            r.controller == controller,
            r.look_transform == (LookTransform { eye, target, up }),
            r.smoother.weight == controller.smoothing_weight,
            r.smoother.lag_pose is None,
            r.smoother.wf(),
    {
        FpsCameraBundle {
            controller,
            look_transform: LookTransform::new(eye, target, up),
            smoother: Smoother::new(controller.smoothing_weight),
        }
    }
}

/// What the cursor state becomes for one toggle-key edge, and whether the
/// cursor position must be reset on the next frame.
pub open spec fn spec_cursor_transition(
    mode: CursorToggleMode,
    auto_hide: bool,
    alt_just_pressed: bool,
    alt_just_released: bool,
    cur: CursorState,
) -> (CursorState, bool) {
    if !auto_hide {
        (cur, false)
    } else {
        match mode {
            CursorToggleMode::Trigger => {
                if alt_just_pressed {
                    (CursorState { locked: false, visible: true }, false)
                } else if alt_just_released {
                    (CursorState { locked: true, visible: false }, true)
                } else {
                    (cur, false)
                }
            },
            CursorToggleMode::Flip => {
                if alt_just_pressed {
                    if cur.locked {
                        (CursorState { locked: false, visible: true }, false)
                    } else {
                        (CursorState { locked: true, visible: false }, true)
                    }
                } else {
                    (cur, false)
                }
            },
        }
    }
}

/// Advance the cursor state for one frame's toggle-key edges; the second
/// result says whether the cursor position must be reset next frame.
pub fn cursor_transition(
    mode: CursorToggleMode,
    auto_hide: bool,
    alt_just_pressed: bool,
    alt_just_released: bool,
    cur: CursorState,
) -> (r: (CursorState, bool))
    ensures
        r.0 == spec_cursor_transition(mode, auto_hide, alt_just_pressed, alt_just_released, cur).0,
        r.1 == spec_cursor_transition(mode, auto_hide, alt_just_pressed, alt_just_released, cur).1,
{
    if !auto_hide {
        return (cur, false);
    }
    match mode {
        CursorToggleMode::Trigger => {
            if alt_just_pressed {
                (CursorState { locked: false, visible: true }, false)
            } else if alt_just_released {
                (CursorState { locked: true, visible: false }, true)
            } else {
                (cur, false)
            }
        },
        CursorToggleMode::Flip => {
            if alt_just_pressed {
                if cur.locked {
                    (CursorState { locked: false, visible: true }, false)
                } else {
                    (CursorState { locked: true, visible: false }, true)
                }
            } else {
                (cur, false)
            }
        },
    }
}

/// The explicit "first enabled wins" selection: the smallest index of an
/// enabled controller, or `None` when none is enabled.
pub fn select_active(controllers: &Vec<FpsCameraController>) -> (r: Option<usize>)
    ensures
        r matches Some(i) ==> i < controllers.len() && controllers@[i as int].enabled && forall|
            j: int,
        | 0 <= j < i ==> !controllers@[j].enabled,
        r is None ==> forall|j: int| 0 <= j < controllers@.len() ==> !controllers@[j].enabled,
{
    let mut i: usize = 0;
    while i < controllers.len()
        invariant
            0 <= i <= controllers.len(),
            forall|j: int| 0 <= j < i ==> !controllers@[j].enabled,
        decreases controllers.len() - i,
    {
        if controllers[i].enabled {
            return Some(i);
        }
        i = i + 1;
    }
    None
}

/// Startup cursor behavior: the cursor starts locked and hidden, and the
/// first enabled auto-hiding camera, if any, is marked for a cursor reset.
pub fn init(controllers: &Vec<FpsCameraController>) -> (r: (CursorState, Option<usize>))
    ensures
        r.0 == (CursorState { locked: true, visible: false }),
        r.1 matches Some(i) ==> i < controllers.len() && controllers@[i as int].enabled
            && controllers@[i as int].auto_hide_cursor && forall|j: int|
            0 <= j < i ==> !(controllers@[j].enabled && controllers@[j].auto_hide_cursor),
        r.1 is None ==> forall|j: int|
            0 <= j < controllers@.len() ==> !(controllers@[j].enabled
                && controllers@[j].auto_hide_cursor),
{
    let state = CursorState { locked: true, visible: false };
    let mut i: usize = 0;
    while i < controllers.len()
        invariant
            state == (CursorState { locked: true, visible: false }),
            0 <= i <= controllers.len(),
            forall|j: int|
                0 <= j < i ==> !(controllers@[j].enabled && controllers@[j].auto_hide_cursor),
        decreases controllers.len() - i,
    {
        if controllers[i].enabled && controllers[i].auto_hide_cursor {
            return (state, Some(i));
        }
        i = i + 1;
    }
    (state, None)
}

/// A controller with its toggle mode replaced.
pub open spec fn with_mode(c: FpsCameraController, m: CursorToggleMode) -> FpsCameraController {
    FpsCameraController { cursor_toggle_mode: m, ..c }
}

/// Apply a mode-change request: with a target index, only that camera
/// changes; without one, every enabled camera changes.
pub fn change_cursor_mode_message_system(
    controllers: &mut Vec<FpsCameraController>,
    message: ChangeCursorModeMessage,
)
    ensures
        final(controllers).len() == old(controllers).len(),
        message.camera_entity matches Some(i) ==> forall|j: int|
            0 <= j < old(controllers)@.len() ==> final(controllers)@[j] == (if j == i {
                with_mode(old(controllers)@[j], message.mode)
            } else {
                old(controllers)@[j]
            }),
        message.camera_entity is None ==> forall|j: int|
            0 <= j < old(controllers)@.len() ==> final(controllers)@[j] == (if old(
                controllers,
            )@[j].enabled {
                with_mode(old(controllers)@[j], message.mode)
            } else {
                old(controllers)@[j]
            }),
{
    match message.camera_entity {
        Some(i) => {
            if i < controllers.len() {
                let c = controllers[i];
                controllers.set(i, FpsCameraController { cursor_toggle_mode: message.mode, ..c });
            }
        },
        None => {
            let mut k: usize = 0;
            while k < controllers.len()
                invariant
                    0 <= k <= controllers@.len(),
                    controllers@.len() == old(controllers)@.len(),
                    forall|j: int|
                        0 <= j < k ==> controllers@[j] == (if old(controllers)@[j].enabled {
                            with_mode(old(controllers)@[j], message.mode)
                        } else {
                            old(controllers)@[j]
                        }),
                    forall|j: int| k <= j < controllers@.len() ==> controllers@[j] == old(
                        controllers,
                    )@[j],
                decreases controllers.len() - k,
            {
                if controllers[k].enabled {
                    let c = controllers[k];
                    controllers.set(
                        k,
                        FpsCameraController { cursor_toggle_mode: message.mode, ..c },
                    );
                }
                k = k + 1;
            }
        },
    }
}

/// The center of a window of the given size, where the cursor is placed on
/// the frame after locking.
pub fn cursor_center(width: i64, height: i64) -> (r: Vec2)
    requires
        0 <= width,
        0 <= height,
    ensures
        r.x == width as int / 2,
        r.y == height as int / 2,
{
    Vec2 { x: width / 2, y: height / 2 }
}

/// Which movement keys are held this frame, in the default key map's order:
/// forward and backward along z, left and right along x, descend and ascend
/// along y.
#[derive(Clone, Copy, Debug, PartialEq, Eq, Structural)]
pub struct KeyState {
    pub forward: bool,
    pub left: bool,
    pub backward: bool,
    pub right: bool,
    pub descend: bool,
    pub ascend: bool,
}

/// Sum of the x components of a frame's mouse motions.
pub open spec fn sum_dx(s: Seq<Vec2>) -> int
    decreases s.len(),
{
    if s.len() == 0 {
        0
    } else {
        sum_dx(s.drop_last()) + s.last().x
    }
}

/// Sum of the y components of a frame's mouse motions.
pub open spec fn sum_dy(s: Seq<Vec2>) -> int
    decreases s.len(),
{
    if s.len() == 0 {
        0
    } else {
        sum_dy(s.drop_last()) + s.last().y
    }
}

/// The messages the default input map emits for one frame: one rotation from
/// the accumulated mouse motion (zero when the cursor is not locked), scaled
/// by the controller's sensitivity and clamped into the message range, then
/// one translation per held movement key.
pub open spec fn spec_input_messages(
    c: FpsCameraController,
    cursor_locked: bool,
    motions: Seq<Vec2>,
    keys: KeyState,
) -> Seq<ControlMessage> {
    let dx = if cursor_locked {
        sum_dx(motions)
    } else {
        0
    };
    let dy = if cursor_locked {
        sum_dy(motions)
    } else {
        0
    };
    let ts = c.translate_sensitivity;
    let nts = (-(c.translate_sensitivity as int)) as i64;
    let s0 = seq![
        ControlMessage::Rotate(
            Vec2 {
                x: spec_clamp(
                    spec_mul_div(c.mouse_rotate_sensitivity.x as int, dx),
                    -2147483648,
                    2147483648,
                ) as i64,
                y: spec_clamp(
                    spec_mul_div(c.mouse_rotate_sensitivity.y as int, dy),
                    -2147483648,
                    2147483648,
                ) as i64,
            },
        ),
    ];
    let s1 = if keys.forward {
        s0.push(ControlMessage::TranslateEye(Vec3 { x: 0, y: 0, z: ts }))
    } else {
        s0
    };
    let s2 = if keys.left {
        s1.push(ControlMessage::TranslateEye(Vec3 { x: ts, y: 0, z: 0 }))
    } else {
        s1
    };
    let s3 = if keys.backward {
        s2.push(ControlMessage::TranslateEye(Vec3 { x: 0, y: 0, z: nts }))
    } else {
        s2
    };
    let s4 = if keys.right {
        s3.push(ControlMessage::TranslateEye(Vec3 { x: nts, y: 0, z: 0 }))
    } else {
        s3
    };
    let s5 = if keys.descend {
        s4.push(ControlMessage::TranslateEye(Vec3 { x: 0, y: nts, z: 0 }))
    } else {
        s4
    };
    if keys.ascend {
        s5.push(ControlMessage::TranslateEye(Vec3 { x: 0, y: ts, z: 0 }))
    } else {
        s5
    }
}

/// The default input map: only the first enabled controller is driven; mouse
/// motion counts only while the cursor is locked; every emitted message is
/// within the message range.
pub fn default_input_map(
    controllers: &Vec<FpsCameraController>,
    cursor_locked: bool,
    mouse_motions: &Vec<Vec2>,
    keys: KeyState,
) -> (msgs: Vec<ControlMessage>)
    requires
        forall|j: int| 0 <= j < controllers@.len() ==> (#[trigger] controllers@[j]).wf(),
        mouse_motions@.len() <= 1024,
        forall|j: int|
            0 <= j < mouse_motions@.len() ==> -1048576 <= (#[trigger] mouse_motions@[j]).x
                <= 1048576 && -1048576 <= mouse_motions@[j].y <= 1048576,
    ensures
        (msgs@.len() == 0) <==> (forall|j: int|
            0 <= j < controllers@.len() ==> !(#[trigger] controllers@[j]).enabled),
        forall|i: int|
            (0 <= i < controllers@.len() && (#[trigger] controllers@[i]).enabled && (forall|j: int|
                0 <= j < i ==> !(#[trigger] controllers@[j]).enabled)) ==> msgs@
                == spec_input_messages(controllers@[i], cursor_locked, mouse_motions@, keys),
        forall|j: int| 0 <= j < msgs@.len() ==> msg_wf(#[trigger] msgs@[j]),
{
    let mut msgs: Vec<ControlMessage> = Vec::new();
    let sel = select_active(controllers);
    let i: usize = match sel {
        None => {
            return msgs;
        },
        Some(i) => i,
    };
    let c = controllers[i];
    let mut dx: i64 = 0;
    let mut dy: i64 = 0;
    if cursor_locked {
        let mut k: usize = 0;
        while k < mouse_motions.len()
            invariant
                0 <= k <= mouse_motions@.len() <= 1024,
                forall|j: int|
                    0 <= j < mouse_motions@.len() ==> -1048576 <= (#[trigger] mouse_motions@[j]).x
                        <= 1048576 && -1048576 <= mouse_motions@[j].y <= 1048576,
                dx == sum_dx(mouse_motions@.subrange(0, k as int)),
                dy == sum_dy(mouse_motions@.subrange(0, k as int)),
                fxabs(dx as int) <= k * 1048576,
                fxabs(dy as int) <= k * 1048576,
            decreases mouse_motions@.len() - k,
        {
            proof {
                let pre = mouse_motions@.subrange(0, k as int);
                let post = mouse_motions@.subrange(0, k as int + 1);
                assert(post.drop_last() =~= pre);
                assert(post.last() == mouse_motions@[k as int]);
            }
            dx = dx + mouse_motions[k].x;
            dy = dy + mouse_motions[k].y;
            k = k + 1;
        }
        proof {
            assert(mouse_motions@.subrange(0, mouse_motions@.len() as int) =~= mouse_motions@);
        }
    }
    let rx = clamp_fx(mul_div_fx(c.mouse_rotate_sensitivity.x, dx), -2147483648, 2147483648);
    let ry = clamp_fx(mul_div_fx(c.mouse_rotate_sensitivity.y, dy), -2147483648, 2147483648);
    msgs.push(ControlMessage::Rotate(Vec2 { x: rx, y: ry }));
    let ts = c.translate_sensitivity;
    if keys.forward {
        msgs.push(ControlMessage::TranslateEye(Vec3 { x: 0, y: 0, z: ts }));
    }
    if keys.left {
        msgs.push(ControlMessage::TranslateEye(Vec3 { x: ts, y: 0, z: 0 }));
    }
    if keys.backward {
        msgs.push(ControlMessage::TranslateEye(Vec3 { x: 0, y: 0, z: -ts }));
    }
    if keys.right {
        msgs.push(ControlMessage::TranslateEye(Vec3 { x: -ts, y: 0, z: 0 }));
    }
    if keys.descend {
        msgs.push(ControlMessage::TranslateEye(Vec3 { x: 0, y: -ts, z: 0 }));
    }
    if keys.ascend {
        msgs.push(ControlMessage::TranslateEye(Vec3 { x: 0, y: ts, z: 0 }));
    }
    proof {
        assert(msgs@ =~= spec_input_messages(c, cursor_locked, mouse_motions@, keys));
        assert forall|i2: int|
            (0 <= i2 < controllers@.len() && controllers@[i2].enabled && (forall|j: int|
                0 <= j < i2 ==> !controllers@[j].enabled)) implies msgs@ == spec_input_messages(
            controllers@[i2],
            cursor_locked,
            mouse_motions@,
            keys,
        ) by {
            if i2 < i as int {
                assert(!controllers@[i2].enabled);
            } else if i2 > i as int {
                assert(!controllers@[i as int].enabled);
            }
            assert(i2 == i as int);
        }
    }
    msgs
}

/// The yaw delta one rotation message contributes: the elapsed-time-scaled,
/// negated horizontal mouse delta, clamped into the admissible range.
pub open spec fn spec_rotate_dyaw(d: Vec2, dt: int) -> int {
    spec_clamp(-spec_mul_div(dt, d.x as int), -(DELTA_LIMIT as int), DELTA_LIMIT as int)
}

/// One rotation message applied to the angles: the elapsed-time-scaled,
/// negated mouse delta is clamped into the admissible delta range, the yaw
/// delta is wrapped in, the pitch delta clamped in.
pub open spec fn spec_rotate_step(a: LookAngles, d: Vec2, dt: int) -> LookAngles {
    let dyaw = spec_rotate_dyaw(d, dt);
    let dpitch = spec_clamp(
        -spec_mul_div(dt, d.y as int),
        -(DELTA_LIMIT as int),
        DELTA_LIMIT as int,
    );
    LookAngles {
        yaw: spec_wrap(a.yaw + dyaw) as i64,
        pitch: spec_clamp(
            a.pitch + dpitch,
            -(crate::fixed::PITCH_MAX as int),
            crate::fixed::PITCH_MAX as int,
        ) as i64,
    }
}

/// The angles after a frame's messages, in order; translation messages leave
/// the angles unchanged.
pub open spec fn spec_apply_rotations(a: LookAngles, s: Seq<ControlMessage>, dt: int) -> LookAngles
    decreases s.len(),
{
    if s.len() == 0 {
        a
    } else {
        let a2 = match s[0] {
            ControlMessage::Rotate(d) => spec_rotate_step(a, d, dt),
            ControlMessage::TranslateEye(_) => a,
        };
        spec_apply_rotations(a2, s.subrange(1, s.len() as int), dt)
    }
}

/// Peeling the last message off the fold.
pub proof fn lemma_apply_rotations_push(
    a: LookAngles,
    s: Seq<ControlMessage>,
    m: ControlMessage,
    dt: int,
)
    ensures
        spec_apply_rotations(a, s.push(m), dt) == (match m {
            ControlMessage::Rotate(d) => spec_rotate_step(spec_apply_rotations(a, s, dt), d, dt),
            ControlMessage::TranslateEye(_) => spec_apply_rotations(a, s, dt),
        }),
    decreases s.len(),
{
    if s.len() == 0 {
        assert(s.push(m)[0] == m);
        assert(s.push(m).subrange(1, 1) =~= Seq::<ControlMessage>::empty());
        let a3 = match m {
            ControlMessage::Rotate(d) => spec_rotate_step(a, d, dt),
            ControlMessage::TranslateEye(_) => a,
        };
        assert(spec_apply_rotations(a, s, dt) == a);
        assert(spec_apply_rotations(a3, s.push(m).subrange(1, 1), dt) == a3);
        assert(spec_apply_rotations(a, s.push(m), dt) == a3);
    } else {
        let a2 = match s[0] {
            ControlMessage::Rotate(d) => spec_rotate_step(a, d, dt),
            ControlMessage::TranslateEye(_) => a,
        };
        assert(s.push(m)[0] == s[0]);
        assert(s.push(m).subrange(1, s.len() as int + 1) =~= s.subrange(1, s.len() as int).push(m));
        lemma_apply_rotations_push(a2, s.subrange(1, s.len() as int), m, dt);
    }
}

/// The total yaw delta of a frame's rotation messages.
pub open spec fn sum_yaw_deltas(s: Seq<ControlMessage>, dt: int) -> int
    decreases s.len(),
{
    if s.len() == 0 {
        0
    } else {
        let d0 = match s[0] {
            ControlMessage::Rotate(d) => spec_rotate_dyaw(d, dt),
            ControlMessage::TranslateEye(_) => 0,
        };
        d0 + sum_yaw_deltas(s.subrange(1, s.len() as int), dt)
    }
}

/// The yaw of the rotation fold is the wrap of the starting yaw plus the sum
/// of the per-message yaw deltas: incremental wrapping loses nothing.
pub proof fn lemma_rotation_fold_yaw(a: LookAngles, s: Seq<ControlMessage>, dt: int)
    ensures
        spec_wrap(spec_apply_rotations(a, s, dt).yaw as int) == spec_wrap(
            a.yaw + sum_yaw_deltas(s, dt),
        ),
    decreases s.len(),
{
    if s.len() == 0 {
    } else {
        let rest = s.subrange(1, s.len() as int);
        match s[0] {
            ControlMessage::Rotate(d) => {
                let a2 = spec_rotate_step(a, d, dt);
                let dy = spec_rotate_dyaw(d, dt);
                lemma_rotation_fold_yaw(a2, rest, dt);
                lemma_wrap_absorb(a.yaw + dy, sum_yaw_deltas(rest, dt));
                lemma_wrap_absorb(spec_wrap(a.yaw + dy), sum_yaw_deltas(rest, dt));
            },
            ControlMessage::TranslateEye(_) => {
                lemma_rotation_fold_yaw(a, rest, dt);
            },
        }
    }
}

/// Yaw periodicity carried to the control step: a frame whose rotation
/// messages contribute yaw deltas summing to exactly a full turn leaves the
/// wrapped yaw of the folded angles where it began.
pub proof fn lemma_control_yaw_periodic(a: LookAngles, s: Seq<ControlMessage>, dt: int)
    requires
        sum_yaw_deltas(s, dt) == crate::fixed::FULL_TURN,
    ensures
        spec_wrap(spec_apply_rotations(a, s, dt).yaw as int) == spec_wrap(a.yaw as int),
{
    lemma_rotation_fold_yaw(a, s, dt);
    lemma_wrap_period(a.yaw as int);
}

/// Pitch saturation carried to the control step: starting clear of the
/// poles, the folded angles stay clear of the poles for any message
/// sequence, however large the deltas.
pub proof fn lemma_control_pitch_bounded(a: LookAngles, s: Seq<ControlMessage>, dt: int)
    requires
        -(crate::fixed::PITCH_MAX as int) <= a.pitch <= crate::fixed::PITCH_MAX as int,
    ensures
        -(crate::fixed::PITCH_MAX as int) <= spec_apply_rotations(a, s, dt).pitch
            <= crate::fixed::PITCH_MAX as int,
    decreases s.len(),
{
    if s.len() == 0 {
    } else {
        let rest = s.subrange(1, s.len() as int);
        match s[0] {
            ControlMessage::Rotate(d) => {
                lemma_control_pitch_bounded(spec_rotate_step(a, d, dt), rest, dt);
            },
            ControlMessage::TranslateEye(_) => {
                lemma_control_pitch_bounded(a, rest, dt);
            },
        }
    }
}

/// Apply a frame's rotation messages to the angles, in order.
pub fn apply_rotations(angles: &LookAngles, messages: &Vec<ControlMessage>, dt: i64) -> (r:
    LookAngles)
    requires
        angles.wf(),
        0 <= dt <= DT_MAX,
        forall|j: int| 0 <= j < messages@.len() ==> msg_wf(#[trigger] messages@[j]),
    ensures
        r == spec_apply_rotations(*angles, messages@, dt as int),
        r.wf(),
{
    let mut cur: LookAngles = *angles;
    let mut k: usize = 0;
    while k < messages.len()
        invariant
            0 <= k <= messages@.len(),
            cur.wf(),
            cur == spec_apply_rotations(*angles, messages@.subrange(0, k as int), dt as int),
            0 <= dt <= DT_MAX,
            forall|j: int| 0 <= j < messages@.len() ==> msg_wf(#[trigger] messages@[j]),
        decreases messages@.len() - k,
    {
        proof {
            assert(messages@.subrange(0, k as int).push(messages@[k as int]) =~= messages@.subrange(
                0,
                k as int + 1,
            ));
            lemma_apply_rotations_push(
                *angles,
                messages@.subrange(0, k as int),
                messages@[k as int],
                dt as int,
            );
        }
        match messages[k] {
            ControlMessage::Rotate(d) => {
                let vx = mul_div_fx(dt, d.x);
                let dyaw = clamp_fx(-vx, -DELTA_LIMIT, DELTA_LIMIT);
                let vy = mul_div_fx(dt, d.y);
                let dpitch = clamp_fx(-vy, -DELTA_LIMIT, DELTA_LIMIT);
                cur.add_yaw(dyaw);
                cur.add_pitch(dpitch);
            },
            ControlMessage::TranslateEye(_) => {},
        }
        k = k + 1;
    }
    proof {
        assert(messages@.subrange(0, messages@.len() as int) =~= messages@);
    }
    cur
}

/// One translation message applied to the eye, as a function: the
/// elapsed-time-scaled delta, each factor clamped into the coordinate range,
/// rotated into the yaw frame spanned by the given sine and cosine, and
/// added with a final clamp per coordinate.
pub open spec fn spec_translate_step(eye: Vec3, v: Vec3, sy: int, cy: int, dt: int) -> Vec3 {
    let mx = spec_clamp(spec_mul_div(dt, v.x as int), -(COORD_MAX as int), COORD_MAX as int);
    let my = spec_clamp(spec_mul_div(dt, v.y as int), -(COORD_MAX as int), COORD_MAX as int);
    let mz = spec_clamp(spec_mul_div(dt, v.z as int), -(COORD_MAX as int), COORD_MAX as int);
    let ox = spec_clamp(
        spec_mul_div(mx, cy) + spec_mul_div(mz, sy),
        -(COORD_MAX as int),
        COORD_MAX as int,
    );
    let oz = spec_clamp(
        spec_mul_div(mx, -sy) + spec_mul_div(mz, cy),
        -(COORD_MAX as int),
        COORD_MAX as int,
    );
    Vec3 {
        x: spec_clamp(eye.x + ox, -(COORD_MAX as int), COORD_MAX as int) as i64,
        y: spec_clamp(eye.y + my, -(COORD_MAX as int), COORD_MAX as int) as i64,
        z: spec_clamp(eye.z + oz, -(COORD_MAX as int), COORD_MAX as int) as i64,
    }
}

/// The eye after a frame's messages, in order; rotation messages leave the
/// eye unchanged.
pub open spec fn spec_apply_translations(
    eye: Vec3,
    s: Seq<ControlMessage>,
    sy: int,
    cy: int,
    dt: int,
) -> Vec3
    decreases s.len(),
{
    if s.len() == 0 {
        eye
    } else {
        let e2 = match s[0] {
            ControlMessage::TranslateEye(v) => spec_translate_step(eye, v, sy, cy, dt),
            ControlMessage::Rotate(_) => eye,
        };
        spec_apply_translations(e2, s.subrange(1, s.len() as int), sy, cy, dt)
    }
}

/// Peeling the last message off the translation fold.
pub proof fn lemma_apply_translations_push(
    eye: Vec3,
    s: Seq<ControlMessage>,
    m: ControlMessage,
    sy: int,
    cy: int,
    dt: int,
)
    ensures
        spec_apply_translations(eye, s.push(m), sy, cy, dt) == (match m {
            ControlMessage::TranslateEye(v) => spec_translate_step(
                spec_apply_translations(eye, s, sy, cy, dt),
                v,
                sy,
                cy,
                dt,
            ),
            ControlMessage::Rotate(_) => spec_apply_translations(eye, s, sy, cy, dt),
        }),
    decreases s.len(),
{
    if s.len() == 0 {
        assert(s.push(m)[0] == m);
        assert(s.push(m).subrange(1, 1) =~= Seq::<ControlMessage>::empty());
        let e3 = match m {
            ControlMessage::TranslateEye(v) => spec_translate_step(eye, v, sy, cy, dt),
            ControlMessage::Rotate(_) => eye,
        };
        assert(spec_apply_translations(eye, s, sy, cy, dt) == eye);
        assert(spec_apply_translations(e3, s.push(m).subrange(1, 1), sy, cy, dt) == e3);
        assert(spec_apply_translations(eye, s.push(m), sy, cy, dt) == e3);
    } else {
        let e2 = match s[0] {
            ControlMessage::TranslateEye(v) => spec_translate_step(eye, v, sy, cy, dt),
            ControlMessage::Rotate(_) => eye,
        };
        assert(s.push(m)[0] == s[0]);
        assert(s.push(m).subrange(1, s.len() as int + 1) =~= s.subrange(1, s.len() as int).push(m));
        lemma_apply_translations_push(e2, s.subrange(1, s.len() as int), m, sy, cy, dt);
    }
}

/// Whether any message of the frame translates the eye.
pub open spec fn has_translate(s: Seq<ControlMessage>) -> bool {
    exists|j: int| 0 <= j < s.len() && (#[trigger] s[j]) is TranslateEye
}

/// Apply a frame's translation messages to the eye position.  Each message
/// moves the eye by the elapsed-time-scaled delta, rotated into the yaw
/// frame; every step is clamped into the working coordinate range.  A frame
/// without translation messages leaves the eye unchanged.
pub fn apply_translations(eye: Vec3, messages: &Vec<ControlMessage>, yaw: i64, dt: i64) -> (r: Vec3)
    requires
        eye.wf(),
        -crate::fixed::HALF_TURN <= yaw <= crate::fixed::HALF_TURN,
        0 <= dt <= DT_MAX,
        forall|j: int| 0 <= j < messages@.len() ==> msg_wf(#[trigger] messages@[j]),
    ensures
        r == spec_apply_translations(
            eye,
            messages@,
            spec_sin(yaw as int),
            spec_cos(yaw as int),
            dt as int,
        ),
        r.wf(),
        !has_translate(messages@) ==> r == eye,
{
    let sy = sin_fx(yaw);
    let cy = cos_fx(yaw);
    let mut cur: Vec3 = eye;
    let mut k: usize = 0;
    while k < messages.len()
        invariant
            0 <= k <= messages@.len(),
            cur.wf(),
            eye.wf(),
            -ONE <= sy <= ONE,
            -ONE <= cy <= ONE,
            sy == spec_sin(yaw as int),
            cy == spec_cos(yaw as int),
            0 <= dt <= DT_MAX,
            cur == spec_apply_translations(
                eye,
                messages@.subrange(0, k as int),
                sy as int,
                cy as int,
                dt as int,
            ),
            !has_translate(messages@.subrange(0, k as int)) ==> cur == eye,
            forall|j: int| 0 <= j < messages@.len() ==> msg_wf(#[trigger] messages@[j]),
        decreases messages@.len() - k,
    {
        proof {
            assert(messages@.subrange(0, k as int).push(messages@[k as int]) =~= messages@.subrange(
                0,
                k as int + 1,
            ));
            lemma_apply_translations_push(
                eye,
                messages@.subrange(0, k as int),
                messages@[k as int],
                sy as int,
                cy as int,
                dt as int,
            );
        }
        match messages[k] {
            ControlMessage::TranslateEye(d) => {
                let mx = clamp_fx(mul_div_fx(dt, d.x), -COORD_MAX, COORD_MAX);
                let my = clamp_fx(mul_div_fx(dt, d.y), -COORD_MAX, COORD_MAX);
                let mz = clamp_fx(mul_div_fx(dt, d.z), -COORD_MAX, COORD_MAX);
                let ox = clamp_fx(mul_div_fx(mx, cy) + mul_div_fx(mz, sy), -COORD_MAX, COORD_MAX);
                let oz = clamp_fx(mul_div_fx(mx, -sy) + mul_div_fx(mz, cy), -COORD_MAX, COORD_MAX);
                cur = cur.add_clamped(Vec3 { x: ox, y: my, z: oz });
                proof {
                    assert(messages@.subrange(0, k as int + 1)[k as int] is TranslateEye);
                }
            },
            ControlMessage::Rotate(_) => {
                proof {
                    if !has_translate(messages@.subrange(0, k as int + 1)) {
                        assert forall|j: int| 0 <= j < k implies !((#[trigger] messages@.subrange(
                            0,
                            k as int,
                        )[j]) is TranslateEye) by {
                            assert(messages@.subrange(0, k as int)[j] == messages@.subrange(
                                0,
                                k as int + 1,
                            )[j]);
                        }
                    }
                }
            },
        }
        k = k + 1;
    }
    proof {
        assert(messages@.subrange(0, messages@.len() as int) =~= messages@);
    }
    cur
}

/// The target re-placed after a frame, as a function: the old eye-target
/// distance (measured from the moved eye), scaled onto the unit vector of
/// the final angles and added to the moved eye, clamped per coordinate.
pub open spec fn spec_place_target(eye: Vec3, old_target: Vec3, a: LookAngles) -> Vec3 {
    let rd = Vec3 {
        x: (old_target.x - eye.x) as i64,
        y: (old_target.y - eye.y) as i64,
        z: (old_target.z - eye.z) as i64,
    };
    let radius = spec_isqrt(norm2(rd));
    let uv = spec_unit_vector(a);
    Vec3 {
        x: spec_clamp(
            eye.x + spec_clamp(
                spec_mul_div(radius, uv.x as int),
                -(COORD_MAX as int),
                COORD_MAX as int,
            ),
            -(COORD_MAX as int),
            COORD_MAX as int,
        ) as i64,
        y: spec_clamp(
            eye.y + spec_clamp(
                spec_mul_div(radius, uv.y as int),
                -(COORD_MAX as int),
                COORD_MAX as int,
            ),
            -(COORD_MAX as int),
            COORD_MAX as int,
        ) as i64,
        z: spec_clamp(
            eye.z + spec_clamp(
                spec_mul_div(radius, uv.z as int),
                -(COORD_MAX as int),
                COORD_MAX as int,
            ),
            -(COORD_MAX as int),
            COORD_MAX as int,
        ) as i64,
    }
}

/// The pose a control step produces, as a function of the old pose, the
/// frame's messages, and the elapsed time: the angles of the old view
/// direction, the rotation fold over the messages, the translation fold in
/// the initial yaw frame, and the re-placed target.  The pair is (eye,
/// target); the up vector is untouched by the control step.
pub open spec fn spec_control_pose(t: LookTransform, msgs: Seq<ControlMessage>, dt: int) -> (
    Vec3,
    Vec3,
) {
    let dir = Vec3 {
        x: (t.target.x - t.eye.x) as i64,
        y: (t.target.y - t.eye.y) as i64,
        z: (t.target.z - t.eye.z) as i64,
    };
    let a0 = spec_from_vector(dir);
    let a = spec_apply_rotations(a0, msgs, dt);
    let eye2 = spec_apply_translations(
        t.eye,
        msgs,
        spec_sin(a0.yaw as int),
        spec_cos(a0.yaw as int),
        dt,
    );
    (eye2, spec_place_target(eye2, t.target, a))
}

/// The per-frame control step for the selected camera: the cursor state
/// advances by the toggle-key edges exactly as `spec_cursor_transition`
/// says; the view direction is read from the pose, the frame's rotations are
/// folded into the angles with the pole guard, the translations move the eye
/// in the yaw frame, and the target is re-placed at the old eye-target
/// distance along the new view direction.  The up vector is untouched, and a
/// frame without translation messages leaves the eye where it was.
pub fn control_system(
    controller: &FpsCameraController,
    transform: &LookTransform,
    messages: &Vec<ControlMessage>,
    cursor: CursorState,
    alt_just_pressed: bool,
    alt_just_released: bool,
    dt: i64,
) -> (r: (LookTransform, CursorState, bool))
    requires
        controller.enabled,
        controller.wf(),
        transform.wf(),
        !(transform.target == transform.eye),
        0 <= dt <= DT_MAX,
        forall|j: int| 0 <= j < messages@.len() ==> msg_wf(#[trigger] messages@[j]),
    ensures
        r.0.eye == spec_control_pose(*transform, messages@, dt as int).0,
        r.0.target == spec_control_pose(*transform, messages@, dt as int).1,
        r.0.wf(),
        r.0.up == transform.up,
        !has_translate(messages@) ==> r.0.eye == transform.eye,
        r.1 == spec_cursor_transition(
            controller.cursor_toggle_mode,
            controller.auto_hide_cursor,
            alt_just_pressed,
            alt_just_released,
            cursor,
        ).0,
        r.2 == spec_cursor_transition(
            controller.cursor_toggle_mode,
            controller.auto_hide_cursor,
            alt_just_pressed,
            alt_just_released,
            cursor,
        ).1,
{
    let cr = cursor_transition(
        controller.cursor_toggle_mode,
        controller.auto_hide_cursor,
        alt_just_pressed,
        alt_just_released,
        cursor,
    );
    let dir = transform.target.sub_v(transform.eye);
    let angles0 = LookAngles::from_vector(dir);
    let yaw0 = angles0.get_yaw();
    let angles = apply_rotations(&angles0, messages, dt);
    let eye2 = apply_translations(transform.eye, messages, yaw0, dt);
    angles.assert_not_looking_up();
    let rd = transform.target.sub_v(eye2);
    let radius = rd.length();
    proof {
        assert(radius <= 2147483648) by (nonlinear_arith)
            requires
                crate::fixed::is_isqrt(crate::vec3::norm2(rd), radius as int),
                crate::vec3::norm2(rd) == rd.x as int * rd.x + rd.y as int * rd.y + rd.z as int
                    * rd.z,
                -1073741824 <= rd.x <= 1073741824,
                -1073741824 <= rd.y <= 1073741824,
                -1073741824 <= rd.z <= 1073741824,
        ;
    }
    let uv = angles.unit_vector();
    let off = Vec3 {
        x: clamp_fx(mul_div_fx(radius, uv.x), -COORD_MAX, COORD_MAX),
        y: clamp_fx(mul_div_fx(radius, uv.y), -COORD_MAX, COORD_MAX),
        z: clamp_fx(mul_div_fx(radius, uv.z), -COORD_MAX, COORD_MAX),
    };
    let tgt = eye2.add_clamped(off);
    (LookTransform { eye: eye2, target: tgt, up: transform.up }, cr.0, cr.1)
}

} // verus!

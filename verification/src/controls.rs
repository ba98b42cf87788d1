//! The program's key bindings: what a frame's keyboard state asks of the
//! window, the debug UI and the camera.
use vstd::prelude::*;

use crate::input::{Input, InputState, Keycode};

verus! {

pub const KEY_TAB: Keycode = 9;
pub const KEY_ESCAPE: Keycode = 27;
pub const KEY_SPACE: Keycode = 32;
pub const KEY_A: Keycode = 97;
pub const KEY_D: Keycode = 100;
pub const KEY_E: Keycode = 101;
pub const KEY_Q: Keycode = 113;
pub const KEY_S: Keycode = 115;
pub const KEY_W: Keycode = 119;
pub const KEY_F1: Keycode = 0x4000003A;
pub const KEY_RIGHT: Keycode = 0x4000004F;
pub const KEY_LEFT: Keycode = 0x40000050;
pub const KEY_DOWN: Keycode = 0x40000051;
pub const KEY_UP: Keycode = 0x40000052;
pub const KEY_LCTRL: Keycode = 0x400000E0;
pub const KEY_LSHIFT: Keycode = 0x400000E1;

/// What a frame asks of the program.
#[derive(Clone, Copy, PartialEq, Eq, Structural, Debug)]
pub struct FrameControls {
    /// Escape is held: leave the main loop.
    pub quit: bool,
    /// Space went down: switch between windowed and fullscreen.
    pub toggle_fullscreen: bool,
    /// Tab went down: free the cursor and stop steering the camera
    /// (`Some(true)`); Tab went up: capture it again (`Some(false)`).
    pub release_cursor: Option<bool>,
    /// F1 went down: show or hide the debug UI.
    pub toggle_ui: bool,
}

pub open spec fn frame_controls_of(s: InputState) -> FrameControls {
    FrameControls {
        quit: s.pressed.contains(KEY_ESCAPE),
        toggle_fullscreen: s.down_this_frame.contains(KEY_SPACE),
        release_cursor: if s.down_this_frame.contains(KEY_TAB) {
            Some(true)
        } else if s.up_this_frame.contains(KEY_TAB) {
            Some(false)
        } else {
            None
        },
        toggle_ui: s.down_this_frame.contains(KEY_F1),
    }
}

/// What the frame's keys ask of the window and the UI.
pub fn frame_controls(input: &Input<'_>) -> (c: FrameControls)
    ensures
        c == frame_controls_of(input.state()),
{
    let release_cursor = if input.get_key_down(KEY_TAB) {
        Some(true)
    } else if input.get_key_up(KEY_TAB) {
        Some(false)
    } else {
        None
    };
    FrameControls {
        quit: input.get_key(KEY_ESCAPE),
        toggle_fullscreen: input.get_key_down(KEY_SPACE),
        release_cursor,
        toggle_ui: input.get_key_down(KEY_F1),
    }
}

/// What the held keys ask of the camera: its speed in units per second, the
/// direction to move in camera space (`x` right, `y` up, `z` forward, each
/// `-1`, `0` or `1`), and the direction to turn (`yaw` right, `pitch` down).
#[derive(Clone, Copy, PartialEq, Eq, Structural, Debug)]
pub struct CameraControls {
    pub speed: u32,
    pub move_x: i8,
    pub move_y: i8,
    pub move_z: i8,
    pub yaw: i8,
    pub pitch: i8,
}

/// `1` for `plus` held, `-1` for `minus` held, `0` for both or neither.
pub open spec fn key_axis(s: InputState, plus: Keycode, minus: Keycode) -> int {
    (if s.pressed.contains(plus) {
        1int
    } else {
        0int
    }) - (if s.pressed.contains(minus) {
        1int
    } else {
        0int
    })
}

/// Fast with left shift, slow with left control, else normal.
pub open spec fn camera_speed_of(s: InputState) -> u32 {
    if s.pressed.contains(KEY_LSHIFT) {
        30
    } else if s.pressed.contains(KEY_LCTRL) {
        4
    } else {
        7
    }
}

pub open spec fn camera_controls_of(s: InputState) -> CameraControls {
    CameraControls {
        speed: camera_speed_of(s),
        move_x: key_axis(s, KEY_D, KEY_A) as i8,
        move_y: key_axis(s, KEY_E, KEY_Q) as i8,
        move_z: key_axis(s, KEY_W, KEY_S) as i8,
        yaw: key_axis(s, KEY_RIGHT, KEY_LEFT) as i8,
        pitch: key_axis(s, KEY_DOWN, KEY_UP) as i8,
    }
}

fn axis(input: &Input<'_>, plus: Keycode, minus: Keycode) -> (r: i8)
    ensures
        r == key_axis(input.state(), plus, minus),
{
    let p: i8 = if input.get_key(plus) {
        1
    } else {
        0
    };
    let m: i8 = if input.get_key(minus) {
        1
    } else {
        0
    };
    p - m
}

/// What the held keys ask of the camera.
pub fn camera_controls(input: &Input<'_>) -> (c: CameraControls)
    ensures
        c == camera_controls_of(input.state()),
{
    let speed: u32 = if input.get_key(KEY_LSHIFT) {
        30
    } else if input.get_key(KEY_LCTRL) {
        4
    } else {
        7
    };
    CameraControls {
        speed,
        move_x: axis(input, KEY_D, KEY_A),
        move_y: axis(input, KEY_E, KEY_Q),
        move_z: axis(input, KEY_W, KEY_S),
        yaw: axis(input, KEY_RIGHT, KEY_LEFT),
        pitch: axis(input, KEY_DOWN, KEY_UP),
    }
}

/// In `s`, the key `held` is held and the key `not_held` is not.
pub open spec fn holds_only(s: InputState, held: Keycode, not_held: Keycode) -> bool {
    s.pressed.contains(held) && !s.pressed.contains(not_held)
}

/// The camera keys: D moves right and A left, E up and Q down, W forward and
/// S backward, the right arrow turns right and the left arrow left, the down
/// arrow pitches down and the up arrow up. Holding only the plus key of an
/// axis gives `1`, only its minus key `-1`, both or neither `0`; no other key
/// moves that axis. Left shift makes the camera fast (30), else left control
/// slow (4), else it moves at 7.
pub proof fn law_camera_keys(s: InputState)
    ensures
        holds_only(s, KEY_D, KEY_A) ==> camera_controls_of(s).move_x == 1,
        holds_only(s, KEY_A, KEY_D) ==> camera_controls_of(s).move_x == -1,
        s.pressed.contains(KEY_D) == s.pressed.contains(KEY_A) ==> camera_controls_of(s).move_x == 0,
        holds_only(s, KEY_E, KEY_Q) ==> camera_controls_of(s).move_y == 1,
        holds_only(s, KEY_Q, KEY_E) ==> camera_controls_of(s).move_y == -1,
        s.pressed.contains(KEY_E) == s.pressed.contains(KEY_Q) ==> camera_controls_of(s).move_y == 0,
        holds_only(s, KEY_W, KEY_S) ==> camera_controls_of(s).move_z == 1,
        holds_only(s, KEY_S, KEY_W) ==> camera_controls_of(s).move_z == -1,
        s.pressed.contains(KEY_W) == s.pressed.contains(KEY_S) ==> camera_controls_of(s).move_z == 0,
        holds_only(s, KEY_RIGHT, KEY_LEFT) ==> camera_controls_of(s).yaw == 1,
        holds_only(s, KEY_LEFT, KEY_RIGHT) ==> camera_controls_of(s).yaw == -1,
        s.pressed.contains(KEY_RIGHT) == s.pressed.contains(KEY_LEFT) ==> camera_controls_of(s).yaw == 0,
        holds_only(s, KEY_DOWN, KEY_UP) ==> camera_controls_of(s).pitch == 1,
        holds_only(s, KEY_UP, KEY_DOWN) ==> camera_controls_of(s).pitch == -1,
        s.pressed.contains(KEY_DOWN) == s.pressed.contains(KEY_UP) ==> camera_controls_of(s).pitch == 0,
        s.pressed.contains(KEY_LSHIFT) ==> camera_controls_of(s).speed == 30,
        !s.pressed.contains(KEY_LSHIFT) && s.pressed.contains(KEY_LCTRL) ==> camera_controls_of(s).speed == 4,
        !s.pressed.contains(KEY_LSHIFT) && !s.pressed.contains(KEY_LCTRL) ==> camera_controls_of(s).speed == 7,
{
}

/// Two frames whose held keys agree on the camera keys give the same camera
/// controls: no other key steers the camera.
pub proof fn law_camera_ignores_other_keys(s: InputState, t: InputState)
    requires
        forall|k: Keycode|
            (k == KEY_W || k == KEY_A || k == KEY_S || k == KEY_D || k == KEY_Q || k == KEY_E || k == KEY_LEFT
                || k == KEY_RIGHT || k == KEY_UP || k == KEY_DOWN || k == KEY_LSHIFT || k == KEY_LCTRL)
                ==> (s.pressed.contains(k) == t.pressed.contains(k)),
    ensures
        camera_controls_of(s) == camera_controls_of(t),
{
    assert(s.pressed.contains(KEY_W) == t.pressed.contains(KEY_W));
    assert(s.pressed.contains(KEY_A) == t.pressed.contains(KEY_A));
    assert(s.pressed.contains(KEY_S) == t.pressed.contains(KEY_S));
    assert(s.pressed.contains(KEY_D) == t.pressed.contains(KEY_D));
    assert(s.pressed.contains(KEY_Q) == t.pressed.contains(KEY_Q));
    assert(s.pressed.contains(KEY_E) == t.pressed.contains(KEY_E));
    assert(s.pressed.contains(KEY_LEFT) == t.pressed.contains(KEY_LEFT));
    assert(s.pressed.contains(KEY_RIGHT) == t.pressed.contains(KEY_RIGHT));
    assert(s.pressed.contains(KEY_UP) == t.pressed.contains(KEY_UP));
    assert(s.pressed.contains(KEY_DOWN) == t.pressed.contains(KEY_DOWN));
    assert(s.pressed.contains(KEY_LSHIFT) == t.pressed.contains(KEY_LSHIFT));
    assert(s.pressed.contains(KEY_LCTRL) == t.pressed.contains(KEY_LCTRL));
}

/// Escape held quits; Space going down toggles fullscreen; F1 going down
/// toggles the UI; Tab going down frees the cursor, and Tab going up (without
/// going down in the same frame) captures it again.
pub proof fn law_frame_keys(s: InputState)
    ensures
        frame_controls_of(s).quit == s.pressed.contains(KEY_ESCAPE),
        frame_controls_of(s).toggle_fullscreen == s.down_this_frame.contains(KEY_SPACE),
        frame_controls_of(s).toggle_ui == s.down_this_frame.contains(KEY_F1),
        s.down_this_frame.contains(KEY_TAB) ==> frame_controls_of(s).release_cursor == Some(true),
        !s.down_this_frame.contains(KEY_TAB) && s.up_this_frame.contains(KEY_TAB) ==> frame_controls_of(s).release_cursor
            == Some(false),
        !s.down_this_frame.contains(KEY_TAB) && !s.up_this_frame.contains(KEY_TAB) ==> frame_controls_of(s).release_cursor
            is None,
{
}

} // verus!

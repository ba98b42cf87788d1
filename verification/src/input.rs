//! Keyboard and mouse button state: which keys are held, and which went down
//! or up during the current frame. Keys are SDL keycodes, buttons SDL button
//! numbers.
use std::collections::HashSet;

use vstd::prelude::*;

verus! {

broadcast use vstd::std_specs::hash::group_hash_axioms;

/// An SDL keycode.
pub type Keycode = i32;

/// An SDL mouse button number (`1` left, `2` middle, `3` right, `4` and `5` the extra buttons).
pub type MouseButton = u8;

/// The abstract input state.
pub struct InputState {
    pub pressed: Set<Keycode>,
    pub down_this_frame: Set<Keycode>,
    pub up_this_frame: Set<Keycode>,
    pub buttons: Set<MouseButton>,
}

/// A key press: a key that was not held becomes held and went down this
/// frame; pressing a held key changes nothing.
pub open spec fn press_key(s: InputState, k: Keycode) -> InputState {
    if s.pressed.contains(k) {
        s
    } else {
        InputState {
            pressed: s.pressed.insert(k),
            down_this_frame: s.down_this_frame.insert(k),
            ..s
        }
    }
}

/// A key release: a held key stops being held and went up this frame;
/// releasing a key that is not held changes nothing.
pub open spec fn release_key(s: InputState, k: Keycode) -> InputState {
    if s.pressed.contains(k) {
        InputState {
            pressed: s.pressed.remove(k),
            up_this_frame: s.up_this_frame.insert(k),
            ..s
        }
    } else {
        s
    }
}

/// The start of a frame: nothing went down or up yet.
pub open spec fn start_frame(s: InputState) -> InputState {
    InputState { down_this_frame: Set::empty(), up_this_frame: Set::empty(), ..s }
}

pub struct InputContainer {
    pressed_keys_this_frame: HashSet<Keycode>,
    released_keys_this_frame: HashSet<Keycode>,
    pressed_keys: HashSet<Keycode>,
    pressed_mouse_buttons: HashSet<MouseButton>,
}

impl View for InputContainer {
    type V = InputState;

    closed spec fn view(&self) -> InputState {
        InputState {
            pressed: self.pressed_keys@,
            down_this_frame: self.pressed_keys_this_frame@,
            up_this_frame: self.released_keys_this_frame@,
            buttons: self.pressed_mouse_buttons@,
        }
    }
}

/// A read-only view of the input state.
#[derive(Clone, Copy)]
pub struct Input<'a> {
    input_container: &'a InputContainer,
}

impl<'a> Input<'a> {
    pub closed spec fn state(&self) -> InputState {
        self.input_container@
    }

    /// Whether `key` is held.
    pub fn get_key(&self, key: Keycode) -> (b: bool)
        ensures
            b == self.state().pressed.contains(key),
    {
        self.input_container.pressed_keys.contains(&key)
    }

    /// Whether `key` went down this frame.
    pub fn get_key_down(&self, key: Keycode) -> (b: bool)
        ensures
            b == self.state().down_this_frame.contains(key),
    {
        self.input_container.pressed_keys_this_frame.contains(&key)
    }

    /// Whether `key` went up this frame.
    pub fn get_key_up(&self, key: Keycode) -> (b: bool)
        ensures
            b == self.state().up_this_frame.contains(key),
    {
        self.input_container.released_keys_this_frame.contains(&key)
    }

    /// Whether `button` is held.
    pub fn get_mouse_button(&self, button: MouseButton) -> (b: bool)
        ensures
            b == self.state().buttons.contains(button),
    {
        self.input_container.pressed_mouse_buttons.contains(&button)
    }
}

impl InputContainer {
    /// Nothing held.
    pub fn new() -> (c: Self)
        ensures
            c@.pressed == Set::<Keycode>::empty(),
            c@.down_this_frame == Set::<Keycode>::empty(),
            c@.up_this_frame == Set::<Keycode>::empty(),
            c@.buttons == Set::<MouseButton>::empty(),
    {
        Self {
            released_keys_this_frame: HashSet::new(),
            pressed_keys_this_frame: HashSet::new(),
            pressed_keys: HashSet::new(),
            pressed_mouse_buttons: HashSet::new(),
        }
    }

    /// Starts a frame.
    pub fn new_frame(&mut self)
        ensures
            final(self)@ == start_frame(old(self)@),
    {
        self.pressed_keys_this_frame.clear();
        self.released_keys_this_frame.clear();
    }

    pub fn add_pressed_mouse_button(&mut self, button: MouseButton)
        ensures
            final(self)@ == (InputState { buttons: old(self)@.buttons.insert(button), ..old(self)@ }),
    {
        self.pressed_mouse_buttons.insert(button);
    }

    pub fn remove_pressed_mouse_button(&mut self, button: MouseButton)
        ensures
            final(self)@ == (InputState { buttons: old(self)@.buttons.remove(button), ..old(self)@ }),
    {
        self.pressed_mouse_buttons.remove(&button);
    }

    pub fn add_pressed_key(&mut self, key: Keycode)
        ensures
            final(self)@ == press_key(old(self)@, key),
    {
        if self.pressed_keys.contains(&key) {
            return;
        }
        self.pressed_keys_this_frame.insert(key);
        self.pressed_keys.insert(key);
    }

    pub fn remove_pressed_key(&mut self, key: Keycode)
        ensures
            final(self)@ == release_key(old(self)@, key),
    {
        if self.pressed_keys.contains(&key) {
            self.pressed_keys.remove(&key);
            self.released_keys_this_frame.insert(key);
        }
    }

    pub fn as_input(&self) -> (i: Input<'_>)
        ensures
            i.state() == self@,
    {
        Input { input_container: self }
    }
}

/// A pressed key is held, and went down this frame unless it was already held.
pub proof fn law_press_holds_key(s: InputState, k: Keycode)
    ensures
        press_key(s, k).pressed.contains(k),
        press_key(s, k).down_this_frame.contains(k) <== !s.pressed.contains(k),
        press_key(s, k).up_this_frame == s.up_this_frame,
{
}

/// Pressing a key twice is pressing it once.
pub proof fn law_press_idempotent(s: InputState, k: Keycode)
    ensures
        press_key(press_key(s, k), k) == press_key(s, k),
{
}

/// Releasing a pressed key: it is no longer held and went up this frame.
pub proof fn law_press_then_release(s: InputState, k: Keycode)
    ensures
        !release_key(press_key(s, k), k).pressed.contains(k),
        release_key(press_key(s, k), k).up_this_frame.contains(k),
        release_key(press_key(s, k), k).pressed == s.pressed.remove(k),
{
    assert(release_key(press_key(s, k), k).pressed =~= s.pressed.remove(k));
}

/// A new frame forgets what went down or up, and keeps what is held.
pub proof fn law_new_frame_keeps_held(s: InputState, k: Keycode)
    ensures
        start_frame(s).pressed == s.pressed,
        start_frame(s).buttons == s.buttons,
        !start_frame(s).down_this_frame.contains(k),
        !start_frame(s).up_this_frame.contains(k),
{
}

/// Keys other than the one pressed or released keep their state.
pub proof fn law_other_keys_unchanged(s: InputState, k: Keycode, j: Keycode)
    requires
        j != k,
    ensures
        press_key(s, k).pressed.contains(j) == s.pressed.contains(j),
        release_key(s, k).pressed.contains(j) == s.pressed.contains(j),
        press_key(s, k).down_this_frame.contains(j) == s.down_this_frame.contains(j),
        release_key(s, k).up_this_frame.contains(j) == s.up_this_frame.contains(j),
{
}

} // verus!

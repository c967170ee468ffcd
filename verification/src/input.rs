//! Mouse buttons, button states, pointer modes and session kinds shared by
//! the hint tool and the mouse service.

use vstd::prelude::*;
pub use crate::window_systems::WindowSystemType;

verus! {

/// Where the mouse service listens.
pub const UNIX_DOMAIN_SOCKET_FILE: &'static str = "/tmp/hints.socket";

/// Where the user's configuration lives (`~` is the home directory).
pub const CONFIG_PATH: &'static str = "~/.config/hints/config.json";

/// Linux input event code of the left mouse button.
pub const BTN_LEFT: u32 = 0x110;

/// Linux input event code of the right mouse button.
pub const BTN_RIGHT: u32 = 0x111;

/// A mouse button.
#[derive(Debug, Clone, Copy, PartialEq, Eq, Structural)]
pub enum MouseButton {
    Left,
    Right,
}

/// The input event code of a button.
pub open spec fn button_code(b: MouseButton) -> u32 {
    match b {
        MouseButton::Left => BTN_LEFT,
        MouseButton::Right => BTN_RIGHT,
    }
}

impl MouseButton {
    /// The Linux input event code of this button.
    pub fn to_evdev_code(&self) -> (r: u32)
        ensures
            r == button_code(*self),
    {
        match self {
            MouseButton::Left => BTN_LEFT,
            MouseButton::Right => BTN_RIGHT,
        }
    }
}

/// Whether a button is pressed or released.
#[derive(Debug, Clone, Copy, PartialEq, Eq, Structural)]
pub enum MouseButtonState {
    Down,
    Up,
}

/// The input event value of a button state: `1` pressed, `0` released.
pub open spec fn state_value(s: MouseButtonState) -> i32 {
    match s {
        MouseButtonState::Down => 1,
        MouseButtonState::Up => 0,
    }
}

impl MouseButtonState {
    /// The input event value of this state.
    pub fn value(&self) -> (r: i32)
        ensures
            r == state_value(*self),
    {
        match self {
            MouseButtonState::Down => 1,
            MouseButtonState::Up => 0,
        }
    }
}

/// What key presses do to the pointer.
#[derive(Debug, Clone, Copy, PartialEq, Eq, Structural)]
pub enum MouseMode {
    Move,
    Scroll,
}

} // verus!

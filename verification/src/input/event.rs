//! Platform independent input events, as they travel between the two machines.
//!
//! Keys are named by their usage id on the Keyboard/Keypad page (0x07) of the USB HID usage
//! tables:
//! - 0x04 to 0x1D: letters a to z
//! - 0x1E to 0x27: digits 1 to 9 and 0
//! - 0x28 to 0x38: Enter, Esc, Backspace, Tab, Space and punctuation
//! - 0x39 to 0x45: Caps Lock and F1 to F12
//! - 0x4F to 0x52: arrow keys
//! - 0xE0 to 0xE7: left and right Ctrl, Shift, Alt and GUI (Win or Command)

use vstd::prelude::*;

verus! {

/// USB HID Keyboard/Keypad usage id.
pub type HidKey = u16;

#[derive(Debug, Clone, Copy, PartialEq, Eq, Structural)]
pub enum KeyState {
    Pressed,
    Released,
}

#[derive(Debug, Clone, Copy, PartialEq, Eq, Structural)]
pub struct KeyEvent {
    pub hid: HidKey,
    pub state: KeyState,
}

#[derive(Debug, Clone, Copy, PartialEq, Eq, Structural)]
pub enum MouseButton {
    Left,
    Right,
    Middle,
}

/// A relative movement, a button edge, or both.
#[derive(Debug, Clone, Copy, PartialEq, Eq, Structural)]
pub struct MouseEvent {
    pub dx: i16,
    pub dy: i16,
    pub button: Option<MouseButton>,
    pub state: Option<KeyState>,
}

#[derive(Debug, Clone, Copy, PartialEq, Eq, Structural)]
pub enum InputEvent {
    Key(KeyEvent),
    Mouse(MouseEvent),
}

} // verus!

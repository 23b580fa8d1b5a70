//! Usage ids of the USB HID Keyboard/Keypad page (0x07).

use vstd::prelude::*;

verus! {

// Letters; the others lie between the two.
pub const A: u16 = 0x04;

pub const Z: u16 = 0x1D;

// Digits.
pub const _1: u16 = 0x1E;

pub const _2: u16 = 0x1F;

pub const _3: u16 = 0x20;

pub const _4: u16 = 0x21;

pub const _5: u16 = 0x22;

pub const _6: u16 = 0x23;

pub const _7: u16 = 0x24;

pub const _8: u16 = 0x25;

pub const _9: u16 = 0x26;

pub const _0: u16 = 0x27;

// Control keys.
pub const ENTER: u16 = 0x28;

pub const ESC: u16 = 0x29;

pub const BACKSPACE: u16 = 0x2A;

pub const TAB: u16 = 0x2B;

pub const SPACE: u16 = 0x2C;

// Punctuation.
pub const MINUS: u16 = 0x2D;

pub const EQUAL: u16 = 0x2E;

pub const LBRACKET: u16 = 0x2F;

pub const RBRACKET: u16 = 0x30;

pub const BACKSLASH: u16 = 0x31;

pub const SEMICOLON: u16 = 0x33;

pub const APOSTROPHE: u16 = 0x34;

pub const GRAVE: u16 = 0x35;

pub const COMMA: u16 = 0x36;

pub const PERIOD: u16 = 0x37;

pub const SLASH: u16 = 0x38;

// Caps Lock and function keys.
pub const CAPSLOCK: u16 = 0x39;

pub const F1: u16 = 0x3A;

pub const F2: u16 = 0x3B;

pub const F3: u16 = 0x3C;

pub const F4: u16 = 0x3D;

pub const F5: u16 = 0x3E;

pub const F6: u16 = 0x3F;

pub const F7: u16 = 0x40;

pub const F8: u16 = 0x41;

pub const F9: u16 = 0x42;

pub const F10: u16 = 0x43;

pub const F11: u16 = 0x44;

pub const F12: u16 = 0x45;

// Delete and arrow keys.
pub const DELETE: u16 = 0x4C;

pub const RIGHT: u16 = 0x4F;

pub const LEFT: u16 = 0x50;

pub const DOWN: u16 = 0x51;

pub const UP: u16 = 0x52;

// Modifiers, left and right.
pub const LCTRL: u16 = 0xE0;

pub const LSHIFT: u16 = 0xE1;

pub const LALT: u16 = 0xE2;

pub const LGUI: u16 = 0xE3;

pub const RCTRL: u16 = 0xE4;

pub const RSHIFT: u16 = 0xE5;

pub const RALT: u16 = 0xE6;

pub const RGUI: u16 = 0xE7;

} // verus!

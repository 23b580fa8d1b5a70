//! Key code translation.
//!
//! Each machine uses its own platform's key codes; on the wire a key is named by its USB HID
//! usage id. Capturing turns a native code into a usage id, injecting turns it back. A key that
//! a table does not hold is `None` and is dropped by the caller.

pub mod hid;
pub mod mac;

use vstd::prelude::*;

verus! {

/// The Windows virtual key `vk` is the key with usage id `h`.
pub open spec fn vk_names(vk: u16, h: u16) -> bool {
    ||| 0x41 <= vk <= 0x5A && h == vk - 0x41 + hid::A
    ||| 0x31 <= vk <= 0x39 && h == vk - 0x31 + hid::_1
    ||| 0x70 <= vk <= 0x7B && h == vk - 0x70 + hid::F1
    ||| vk == 0x30 && h == hid::_0
    ||| vk == 0x0D && h == hid::ENTER
    ||| vk == 0x1B && h == hid::ESC
    ||| vk == 0x08 && h == hid::BACKSPACE
    ||| vk == 0x09 && h == hid::TAB
    ||| vk == 0x20 && h == hid::SPACE
    ||| vk == 0xBD && h == hid::MINUS
    ||| vk == 0xBB && h == hid::EQUAL
    ||| vk == 0xDB && h == hid::LBRACKET
    ||| vk == 0xDD && h == hid::RBRACKET
    ||| vk == 0xDC && h == hid::BACKSLASH
    ||| vk == 0xBA && h == hid::SEMICOLON
    ||| vk == 0xDE && h == hid::APOSTROPHE
    ||| vk == 0xC0 && h == hid::GRAVE
    ||| vk == 0xBC && h == hid::COMMA
    ||| vk == 0xBE && h == hid::PERIOD
    ||| vk == 0xBF && h == hid::SLASH
    ||| vk == 0x14 && h == hid::CAPSLOCK
    ||| vk == 0x2E && h == hid::DELETE
    ||| vk == 0x27 && h == hid::RIGHT
    ||| vk == 0x25 && h == hid::LEFT
    ||| vk == 0x28 && h == hid::DOWN
    ||| vk == 0x26 && h == hid::UP
    ||| vk == 0xA0 && h == hid::LSHIFT
    ||| vk == 0xA1 && h == hid::RSHIFT
    ||| vk == 0xA2 && h == hid::LCTRL
    ||| vk == 0xA3 && h == hid::RCTRL
    ||| vk == 0xA4 && h == hid::LALT
    ||| vk == 0xA5 && h == hid::RALT
    ||| vk == 0x5B && h == hid::LGUI
    ||| vk == 0x5C && h == hid::RGUI
}

/// The usage id of a Windows virtual key, if the table holds the key.
pub open spec fn hid_of_vk(vk: u16) -> Option<u16> {
    if exists|h: u16| vk_names(vk, h) {
        Some(choose|h: u16| vk_names(vk, h))
    } else {
        None
    }
}

/// The Windows virtual key of a usage id, if the table holds the key.
pub open spec fn vk_of_hid(h: u16) -> Option<u16> {
    if exists|vk: u16| vk_names(vk, h) {
        Some(choose|vk: u16| vk_names(vk, h))
    } else {
        None
    }
}

/// Windows virtual key to usage id.
pub fn vk_to_hid(vk: u16) -> (r: Option<u16>)
    ensures
        match r {
            Some(h) => vk_names(vk, h),
            None => forall|h: u16| !vk_names(vk, h),
        },
        r == hid_of_vk(vk),
{
    let r: Option<u16> = if 0x41 <= vk && vk <= 0x5A {
        Some((vk - 0x41) + hid::A)
    } else if 0x31 <= vk && vk <= 0x39 {
        Some((vk - 0x31) + hid::_1)
    } else if 0x70 <= vk && vk <= 0x7B {
        Some((vk - 0x70) + hid::F1)
    } else {
        match vk {
            0x30 => Some(hid::_0),
            0x0D => Some(hid::ENTER),
            0x1B => Some(hid::ESC),
            0x08 => Some(hid::BACKSPACE),
            0x09 => Some(hid::TAB),
            0x20 => Some(hid::SPACE),
            0xBD => Some(hid::MINUS),
            0xBB => Some(hid::EQUAL),
            0xDB => Some(hid::LBRACKET),
            0xDD => Some(hid::RBRACKET),
            0xDC => Some(hid::BACKSLASH),
            0xBA => Some(hid::SEMICOLON),
            0xDE => Some(hid::APOSTROPHE),
            0xC0 => Some(hid::GRAVE),
            0xBC => Some(hid::COMMA),
            0xBE => Some(hid::PERIOD),
            0xBF => Some(hid::SLASH),
            0x14 => Some(hid::CAPSLOCK),
            0x2E => Some(hid::DELETE),
            0x27 => Some(hid::RIGHT),
            0x25 => Some(hid::LEFT),
            0x28 => Some(hid::DOWN),
            0x26 => Some(hid::UP),
            0xA0 => Some(hid::LSHIFT),
            0xA1 => Some(hid::RSHIFT),
            0xA2 => Some(hid::LCTRL),
            0xA3 => Some(hid::RCTRL),
            0xA4 => Some(hid::LALT),
            0xA5 => Some(hid::RALT),
            0x5B => Some(hid::LGUI),
            0x5C => Some(hid::RGUI),
            _ => None,
        }
    };
    proof {
        if let Some(h) = r {
            vk_round_trip(vk, h);
        }
    }
    r
}

/// Usage id to Windows virtual key.
pub fn hid_to_vk(h: u16) -> (r: Option<u16>)
    ensures
        match r {
            Some(vk) => vk_names(vk, h),
            None => forall|vk: u16| !vk_names(vk, h),
        },
        r == vk_of_hid(h),
{
    let r: Option<u16> = if hid::A <= h && h <= hid::Z {
        Some((h - hid::A) + 0x41)
    } else if hid::_1 <= h && h <= hid::_9 {
        Some((h - hid::_1) + 0x31)
    } else if hid::F1 <= h && h <= hid::F12 {
        Some((h - hid::F1) + 0x70)
    } else {
        match h {
            hid::_0 => Some(0x30),
            hid::ENTER => Some(0x0D),
            hid::ESC => Some(0x1B),
            hid::BACKSPACE => Some(0x08),
            hid::TAB => Some(0x09),
            hid::SPACE => Some(0x20),
            hid::MINUS => Some(0xBD),
            hid::EQUAL => Some(0xBB),
            hid::LBRACKET => Some(0xDB),
            hid::RBRACKET => Some(0xDD),
            hid::BACKSLASH => Some(0xDC),
            hid::SEMICOLON => Some(0xBA),
            hid::APOSTROPHE => Some(0xDE),
            hid::GRAVE => Some(0xC0),
            hid::COMMA => Some(0xBC),
            hid::PERIOD => Some(0xBE),
            hid::SLASH => Some(0xBF),
            hid::CAPSLOCK => Some(0x14),
            hid::DELETE => Some(0x2E),
            hid::RIGHT => Some(0x27),
            hid::LEFT => Some(0x25),
            hid::DOWN => Some(0x28),
            hid::UP => Some(0x26),
            hid::LSHIFT => Some(0xA0),
            hid::RSHIFT => Some(0xA1),
            hid::LCTRL => Some(0xA2),
            hid::RCTRL => Some(0xA3),
            hid::LALT => Some(0xA4),
            hid::RALT => Some(0xA5),
            hid::LGUI => Some(0x5B),
            hid::RGUI => Some(0x5C),
            _ => None,
        }
    };
    proof {
        if let Some(vk) = r {
            vk_round_trip(vk, h);
        }
    }
    r
}

/// The Windows table is one to one: what a key is turned into, it is turned back from.
pub proof fn vk_table_is_one_to_one(vk1: u16, h1: u16, vk2: u16, h2: u16)
    requires
        vk_names(vk1, h1),
        vk_names(vk2, h2),
    ensures
        vk1 == vk2 <==> h1 == h2,
{
}

/// Translating a key that the table holds and translating it back gives the key, from either
/// side.
pub proof fn vk_round_trip(vk: u16, h: u16)
    requires
        vk_names(vk, h),
    ensures
        hid_of_vk(vk) == Some(h),
        vk_of_hid(h) == Some(vk),
{
    vk_table_is_one_to_one(vk, hid_of_vk(vk)->0, vk, h);
    vk_table_is_one_to_one(vk_of_hid(h)->0, h, vk, h);
}

} // verus!

//! Key codes.

use vstd::prelude::*;

use crate::input::keycodes;
use crate::input::keycodes::mac;

verus! {

/// The usage ids of the Windows virtual keys, by number: the letters and the digits have the codes
/// of their characters, and the function keys follow one another.
pub open spec fn windows_usage(vk: u16, h: u16) -> bool {
    ||| 'A' as u16 <= vk <= 'Z' as u16 && h - 0x04 == vk - 'A' as u16
    ||| '1' as u16 <= vk <= '9' as u16 && h - 0x1E == vk - '1' as u16
    ||| 0x70 <= vk <= 0x7B && h - 0x3A == vk - 0x70  // f1 to f12
    ||| vk == 0x08 && h == 0x2A  // backspace
    ||| vk == 0x09 && h == 0x2B  // tab
    ||| vk == 0x0D && h == 0x28  // enter
    ||| vk == 0x14 && h == 0x39  // capslock
    ||| vk == 0x1B && h == 0x29  // esc
    ||| vk == 0x20 && h == 0x2C  // space
    ||| vk == 0x25 && h == 0x50  // left
    ||| vk == 0x26 && h == 0x52  // up
    ||| vk == 0x27 && h == 0x4F  // right
    ||| vk == 0x28 && h == 0x51  // down
    ||| vk == 0x2E && h == 0x4C  // delete
    ||| vk == 0x30 && h == 0x27  // 0
    ||| vk == 0x5B && h == 0xE3  // lgui
    ||| vk == 0x5C && h == 0xE7  // rgui
    ||| vk == 0xA0 && h == 0xE1  // lshift
    ||| vk == 0xA1 && h == 0xE5  // rshift
    ||| vk == 0xA2 && h == 0xE0  // lctrl
    ||| vk == 0xA3 && h == 0xE4  // rctrl
    ||| vk == 0xA4 && h == 0xE2  // lalt
    ||| vk == 0xA5 && h == 0xE6  // ralt
    ||| vk == 0xBA && h == 0x33  // semicolon
    ||| vk == 0xBB && h == 0x2E  // equal
    ||| vk == 0xBC && h == 0x36  // comma
    ||| vk == 0xBD && h == 0x2D  // minus
    ||| vk == 0xBE && h == 0x37  // period
    ||| vk == 0xBF && h == 0x38  // slash
    ||| vk == 0xC0 && h == 0x35  // grave
    ||| vk == 0xDB && h == 0x2F  // lbracket
    ||| vk == 0xDC && h == 0x31  // backslash
    ||| vk == 0xDD && h == 0x30  // rbracket
    ||| vk == 0xDE && h == 0x34  // apostrophe
}

/// Windows keys and usage ids belong together as those two standards say, and in no other way: in
/// both directions, and for keys and ids that have no partner.
pub proof fn windows_keys_have_their_usage(vk: u16, h: u16)
    ensures
        keycodes::vk_names(vk, h) <==> windows_usage(vk, h),
        keycodes::hid_of_vk(vk) == Some(h) <==> windows_usage(vk, h),
        keycodes::vk_of_hid(h) == Some(vk) <==> windows_usage(vk, h),
{
    if keycodes::vk_names(vk, h) {
        keycodes::vk_round_trip(vk, h);
    }
}

/// The key codes of the letters from a on, as a keyboard lays them out.
pub open spec fn mac_letters() -> Seq<u16> {
    seq![
        0x00u16, 0x0Bu16, 0x08u16, 0x02u16, 0x0Eu16, 0x03u16, 0x05u16, 0x04u16, 0x22u16, 0x26u16,
        0x28u16, 0x25u16, 0x2Eu16, 0x2Du16, 0x1Fu16, 0x23u16, 0x0Cu16, 0x0Fu16, 0x01u16, 0x11u16,
        0x20u16, 0x09u16, 0x0Du16, 0x07u16, 0x10u16, 0x06u16,
    ]
}

/// The key codes of the digits 1 to 9 and 0.
pub open spec fn mac_digits() -> Seq<u16> {
    seq![0x12u16, 0x13u16, 0x14u16, 0x15u16, 0x17u16, 0x16u16, 0x1Au16, 0x1Cu16, 0x19u16, 0x1Du16]
}

/// The key codes of the function keys from F1 on.
pub open spec fn mac_function_keys() -> Seq<u16> {
    seq![
        0x7Au16, 0x78u16, 0x63u16, 0x76u16, 0x60u16, 0x61u16, 0x62u16, 0x64u16, 0x65u16, 0x6Du16,
        0x67u16, 0x6Fu16,
    ]
}

/// The usage ids of the macOS key codes, by number.
pub open spec fn mac_usage(kc: u16, h: u16) -> bool {
    ||| 0x04 <= h <= 0x1D && kc == mac_letters()[h - 0x04]
    ||| 0x1E <= h <= 0x27 && kc == mac_digits()[h - 0x1E]
    ||| 0x3A <= h <= 0x45 && kc == mac_function_keys()[h - 0x3A]
    ||| kc == 0x24 && h == 0x28  // enter
    ||| kc == 0x35 && h == 0x29  // esc
    ||| kc == 0x33 && h == 0x2A  // backspace
    ||| kc == 0x30 && h == 0x2B  // tab
    ||| kc == 0x31 && h == 0x2C  // space
    ||| kc == 0x1B && h == 0x2D  // minus
    ||| kc == 0x18 && h == 0x2E  // equal
    ||| kc == 0x21 && h == 0x2F  // lbracket
    ||| kc == 0x1E && h == 0x30  // rbracket
    ||| kc == 0x2A && h == 0x31  // backslash
    ||| kc == 0x29 && h == 0x33  // semicolon
    ||| kc == 0x27 && h == 0x34  // apostrophe
    ||| kc == 0x32 && h == 0x35  // grave
    ||| kc == 0x2B && h == 0x36  // comma
    ||| kc == 0x2F && h == 0x37  // period
    ||| kc == 0x2C && h == 0x38  // slash
    ||| kc == 0x39 && h == 0x39  // capslock
    ||| kc == 0x75 && h == 0x4C  // delete
    ||| kc == 0x7C && h == 0x4F  // right
    ||| kc == 0x7B && h == 0x50  // left
    ||| kc == 0x7D && h == 0x51  // down
    ||| kc == 0x7E && h == 0x52  // up
    ||| kc == 0x3B && h == 0xE0  // lctrl
    ||| kc == 0x38 && h == 0xE1  // lshift
    ||| kc == 0x3A && h == 0xE2  // lalt
    ||| kc == 0x37 && h == 0xE3  // lgui
    ||| kc == 0x3E && h == 0xE4  // rctrl
    ||| kc == 0x3C && h == 0xE5  // rshift
    ||| kc == 0x3D && h == 0xE6  // ralt
}

/// macOS keys and usage ids belong together as those two standards say, and in no other way.
pub proof fn mac_keys_have_their_usage(kc: u16, h: u16)
    ensures
        mac::mac_key_names(kc, h) <==> mac_usage(kc, h),
        mac::hid_of_mac(kc) == Some(h) <==> mac_usage(kc, h),
        mac::mac_of_hid(h) == Some(kc) <==> mac_usage(kc, h),
{
    if mac::mac_key_names(kc, h) {
        mac::mac_round_trip(kc, h);
    }
}

} // verus!

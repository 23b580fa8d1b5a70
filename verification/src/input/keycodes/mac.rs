//! macOS virtual key codes (`kVK_*`) and USB HID usage ids.

use vstd::prelude::*;

verus! {

/// The macOS virtual key `kc` is the key with usage id `h`.
pub open spec fn mac_key_names(kc: u16, h: u16) -> bool {
    ||| kc == 0x00 && h == 0x04  // a
    ||| kc == 0x01 && h == 0x16  // s
    ||| kc == 0x02 && h == 0x07  // d
    ||| kc == 0x03 && h == 0x09  // f
    ||| kc == 0x04 && h == 0x0B  // h
    ||| kc == 0x05 && h == 0x0A  // g
    ||| kc == 0x06 && h == 0x1D  // z
    ||| kc == 0x07 && h == 0x1B  // x
    ||| kc == 0x08 && h == 0x06  // c
    ||| kc == 0x09 && h == 0x19  // v
    ||| kc == 0x0B && h == 0x05  // b
    ||| kc == 0x0C && h == 0x14  // q
    ||| kc == 0x0D && h == 0x1A  // w
    ||| kc == 0x0E && h == 0x08  // e
    ||| kc == 0x0F && h == 0x15  // r
    ||| kc == 0x10 && h == 0x1C  // y
    ||| kc == 0x11 && h == 0x17  // t
    ||| kc == 0x12 && h == 0x1E  // 1
    ||| kc == 0x13 && h == 0x1F  // 2
    ||| kc == 0x14 && h == 0x20  // 3
    ||| kc == 0x15 && h == 0x21  // 4
    ||| kc == 0x16 && h == 0x23  // 6
    ||| kc == 0x17 && h == 0x22  // 5
    ||| kc == 0x18 && h == 0x2E  // equal
    ||| kc == 0x19 && h == 0x26  // 9
    ||| kc == 0x1A && h == 0x24  // 7
    ||| kc == 0x1B && h == 0x2D  // minus
    ||| kc == 0x1C && h == 0x25  // 8
    ||| kc == 0x1D && h == 0x27  // 0
    ||| kc == 0x1E && h == 0x30  // rbracket
    ||| kc == 0x1F && h == 0x12  // o
    ||| kc == 0x20 && h == 0x18  // u
    ||| kc == 0x21 && h == 0x2F  // lbracket
    ||| kc == 0x22 && h == 0x0C  // i
    ||| kc == 0x23 && h == 0x13  // p
    ||| kc == 0x24 && h == 0x28  // enter
    ||| kc == 0x25 && h == 0x0F  // l
    ||| kc == 0x26 && h == 0x0D  // j
    ||| kc == 0x27 && h == 0x34  // apostrophe
    ||| kc == 0x28 && h == 0x0E  // k
    ||| kc == 0x29 && h == 0x33  // semicolon
    ||| kc == 0x2A && h == 0x31  // backslash
    ||| kc == 0x2B && h == 0x36  // comma
    ||| kc == 0x2C && h == 0x38  // slash
    ||| kc == 0x2D && h == 0x11  // n
    ||| kc == 0x2E && h == 0x10  // m
    ||| kc == 0x2F && h == 0x37  // period
    ||| kc == 0x32 && h == 0x35  // grave
    ||| kc == 0x30 && h == 0x2B  // tab
    ||| kc == 0x31 && h == 0x2C  // space
    ||| kc == 0x33 && h == 0x2A  // backspace
    ||| kc == 0x35 && h == 0x29  // esc
    ||| kc == 0x39 && h == 0x39  // capslock
    ||| kc == 0x37 && h == 0xE3  // lgui
    ||| kc == 0x38 && h == 0xE1  // lshift
    ||| kc == 0x3A && h == 0xE2  // lalt
    ||| kc == 0x3B && h == 0xE0  // lctrl
    ||| kc == 0x3C && h == 0xE5  // rshift
    ||| kc == 0x3D && h == 0xE6  // ralt
    ||| kc == 0x3E && h == 0xE4  // rctrl
    ||| kc == 0x7B && h == 0x50  // left
    ||| kc == 0x7C && h == 0x4F  // right
    ||| kc == 0x7D && h == 0x51  // down
    ||| kc == 0x7E && h == 0x52  // up
    ||| kc == 0x7A && h == 0x3A  // f1
    ||| kc == 0x78 && h == 0x3B  // f2
    ||| kc == 0x63 && h == 0x3C  // f3
    ||| kc == 0x76 && h == 0x3D  // f4
    ||| kc == 0x60 && h == 0x3E  // f5
    ||| kc == 0x61 && h == 0x3F  // f6
    ||| kc == 0x62 && h == 0x40  // f7
    ||| kc == 0x64 && h == 0x41  // f8
    ||| kc == 0x65 && h == 0x42  // f9
    ||| kc == 0x6D && h == 0x43  // f10
    ||| kc == 0x67 && h == 0x44  // f11
    ||| kc == 0x6F && h == 0x45  // f12
    ||| kc == 0x75 && h == 0x4C  // delete
}

/// The usage id of a macOS virtual key, if the table holds the key.
pub open spec fn hid_of_mac(kc: u16) -> Option<u16> {
    if exists|h: u16| mac_key_names(kc, h) {
        Some(choose|h: u16| mac_key_names(kc, h))
    } else {
        None
    }
}

/// The macOS virtual key of a usage id, if the table holds the key.
pub open spec fn mac_of_hid(h: u16) -> Option<u16> {
    if exists|kc: u16| mac_key_names(kc, h) {
        Some(choose|kc: u16| mac_key_names(kc, h))
    } else {
        None
    }
}

/// macOS virtual key to usage id.
pub fn mac_keycode_to_hid(kc: u16) -> (r: Option<u16>)
    ensures
        match r {
            Some(h) => mac_key_names(kc, h),
            None => forall|h: u16| !mac_key_names(kc, h),
        },
        r == hid_of_mac(kc),
{
    let r: Option<u16> = match kc {
        0x00 => Some(0x04),
        0x01 => Some(0x16),
        0x02 => Some(0x07),
        0x03 => Some(0x09),
        0x04 => Some(0x0B),
        0x05 => Some(0x0A),
        0x06 => Some(0x1D),
        0x07 => Some(0x1B),
        0x08 => Some(0x06),
        0x09 => Some(0x19),
        0x0B => Some(0x05),
        0x0C => Some(0x14),
        0x0D => Some(0x1A),
        0x0E => Some(0x08),
        0x0F => Some(0x15),
        0x10 => Some(0x1C),
        0x11 => Some(0x17),
        0x12 => Some(0x1E),
        0x13 => Some(0x1F),
        0x14 => Some(0x20),
        0x15 => Some(0x21),
        0x16 => Some(0x23),
        0x17 => Some(0x22),
        0x18 => Some(0x2E),
        0x19 => Some(0x26),
        0x1A => Some(0x24),
        0x1B => Some(0x2D),
        0x1C => Some(0x25),
        0x1D => Some(0x27),
        0x1E => Some(0x30),
        0x1F => Some(0x12),
        0x20 => Some(0x18),
        0x21 => Some(0x2F),
        0x22 => Some(0x0C),
        0x23 => Some(0x13),
        0x24 => Some(0x28),
        0x25 => Some(0x0F),
        0x26 => Some(0x0D),
        0x27 => Some(0x34),
        0x28 => Some(0x0E),
        0x29 => Some(0x33),
        0x2A => Some(0x31),
        0x2B => Some(0x36),
        0x2C => Some(0x38),
        0x2D => Some(0x11),
        0x2E => Some(0x10),
        0x2F => Some(0x37),
        0x32 => Some(0x35),
        0x30 => Some(0x2B),
        0x31 => Some(0x2C),
        0x33 => Some(0x2A),
        0x35 => Some(0x29),
        0x39 => Some(0x39),
        0x37 => Some(0xE3),
        0x38 => Some(0xE1),
        0x3A => Some(0xE2),
        0x3B => Some(0xE0),
        0x3C => Some(0xE5),
        0x3D => Some(0xE6),
        0x3E => Some(0xE4),
        0x7B => Some(0x50),
        0x7C => Some(0x4F),
        0x7D => Some(0x51),
        0x7E => Some(0x52),
        0x7A => Some(0x3A),
        0x78 => Some(0x3B),
        0x63 => Some(0x3C),
        0x76 => Some(0x3D),
        0x60 => Some(0x3E),
        0x61 => Some(0x3F),
        0x62 => Some(0x40),
        0x64 => Some(0x41),
        0x65 => Some(0x42),
        0x6D => Some(0x43),
        0x67 => Some(0x44),
        0x6F => Some(0x45),
        0x75 => Some(0x4C),
        _ => None,
    };
    proof {
        if let Some(h) = r {
            mac_round_trip(kc, h);
        }
    }
    r
}

/// Usage id to macOS virtual key.
pub fn hid_to_mac_keycode(h: u16) -> (r: Option<u16>)
    ensures
        match r {
            Some(kc) => mac_key_names(kc, h),
            None => forall|kc: u16| !mac_key_names(kc, h),
        },
        r == mac_of_hid(h),
{
    let r: Option<u16> = match h {
        0x04 => Some(0x00),
        0x16 => Some(0x01),
        0x07 => Some(0x02),
        0x09 => Some(0x03),
        0x0B => Some(0x04),
        0x0A => Some(0x05),
        0x1D => Some(0x06),
        0x1B => Some(0x07),
        0x06 => Some(0x08),
        0x19 => Some(0x09),
        0x05 => Some(0x0B),
        0x14 => Some(0x0C),
        0x1A => Some(0x0D),
        0x08 => Some(0x0E),
        0x15 => Some(0x0F),
        0x1C => Some(0x10),
        0x17 => Some(0x11),
        0x1E => Some(0x12),
        0x1F => Some(0x13),
        0x20 => Some(0x14),
        0x21 => Some(0x15),
        0x23 => Some(0x16),
        0x22 => Some(0x17),
        0x2E => Some(0x18),
        0x26 => Some(0x19),
        0x24 => Some(0x1A),
        0x2D => Some(0x1B),
        0x25 => Some(0x1C),
        0x27 => Some(0x1D),
        0x30 => Some(0x1E),
        0x12 => Some(0x1F),
        0x18 => Some(0x20),
        0x2F => Some(0x21),
        0x0C => Some(0x22),
        0x13 => Some(0x23),
        0x28 => Some(0x24),
        0x0F => Some(0x25),
        0x0D => Some(0x26),
        0x34 => Some(0x27),
        0x0E => Some(0x28),
        0x33 => Some(0x29),
        0x31 => Some(0x2A),
        0x36 => Some(0x2B),
        0x38 => Some(0x2C),
        0x11 => Some(0x2D),
        0x10 => Some(0x2E),
        0x37 => Some(0x2F),
        0x35 => Some(0x32),
        0x2B => Some(0x30),
        0x2C => Some(0x31),
        0x2A => Some(0x33),
        0x29 => Some(0x35),
        0x39 => Some(0x39),
        0xE3 => Some(0x37),
        0xE1 => Some(0x38),
        0xE2 => Some(0x3A),
        0xE0 => Some(0x3B),
        0xE5 => Some(0x3C),
        0xE6 => Some(0x3D),
        0xE4 => Some(0x3E),
        0x50 => Some(0x7B),
        0x4F => Some(0x7C),
        0x51 => Some(0x7D),
        0x52 => Some(0x7E),
        0x3A => Some(0x7A),
        0x3B => Some(0x78),
        0x3C => Some(0x63),
        0x3D => Some(0x76),
        0x3E => Some(0x60),
        0x3F => Some(0x61),
        0x40 => Some(0x62),
        0x41 => Some(0x64),
        0x42 => Some(0x65),
        0x43 => Some(0x6D),
        0x44 => Some(0x67),
        0x45 => Some(0x6F),
        0x4C => Some(0x75),
        _ => None,
    };
    proof {
        if let Some(kc) = r {
            mac_round_trip(kc, h);
        }
    }
    r
}

/// The macOS table is one to one: what a key is turned into, it is turned back from.
pub proof fn mac_table_is_one_to_one(kc1: u16, h1: u16, kc2: u16, h2: u16)
    requires
        mac_key_names(kc1, h1),
        mac_key_names(kc2, h2),
    ensures
        kc1 == kc2 <==> h1 == h2,
{
}

/// Translating a key that the table holds and translating it back gives the key, from either
/// side.
pub proof fn mac_round_trip(kc: u16, h: u16)
    requires
        mac_key_names(kc, h),
    ensures
        hid_of_mac(kc) == Some(h),
        mac_of_hid(h) == Some(kc),
{
    mac_table_is_one_to_one(kc, hid_of_mac(kc)->0, kc, h);
    mac_table_is_one_to_one(mac_of_hid(h)->0, h, kc, h);
}

} // verus!

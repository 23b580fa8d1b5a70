use crosslink::input::keycodes::mac::{hid_to_mac_keycode, mac_keycode_to_hid};
use crosslink::input::keycodes::{hid, hid_to_vk, vk_to_hid};

#[test]
fn round_trip_letters() {
    for vk in 0x41u16..=0x5A {
        let hid = vk_to_hid(vk).expect("letter should map");
        let back = hid_to_vk(hid).expect("hid should map back");
        assert_eq!(vk, back, "round-trip letter VK 0x{:02X}", vk);
    }
}

#[test]
fn round_trip_numbers() {
    for vk in [0x30u16, 0x31, 0x32, 0x33, 0x34, 0x35, 0x36, 0x37, 0x38, 0x39] {
        let hid = vk_to_hid(vk).expect("digit should map");
        let back = hid_to_vk(hid).expect("hid should map back");
        assert_eq!(vk, back, "round-trip digit VK 0x{:02X}", vk);
    }
}

#[test]
fn round_trip_modifiers() {
    for vk in [0xA0u16, 0xA1, 0xA2, 0xA3, 0xA4, 0xA5, 0x5B, 0x5C] {
        let hid = vk_to_hid(vk).expect("modifier should map");
        let back = hid_to_vk(hid).expect("hid should map back");
        assert_eq!(vk, back, "round-trip modifier VK 0x{:02X}", vk);
    }
}

#[test]
fn round_trip_misc() {
    for vk in [0x0Du16, 0x1B, 0x08, 0x09, 0x20, 0x14, 0x2E, 0x27, 0x25, 0x28, 0x26] {
        let hid = vk_to_hid(vk).expect("misc should map");
        let back = hid_to_vk(hid).expect("hid should map back");
        assert_eq!(vk, back, "round-trip misc VK 0x{:02X}", vk);
    }
}

#[test]
fn every_virtual_key_round_trips() {
    let mut known = 0;
    for vk in 0u16..=0xFFFF {
        if let Some(h) = vk_to_hid(vk) {
            known += 1;
            assert_eq!(hid_to_vk(h), Some(vk), "VK 0x{:02X}", vk);
        }
    }
    assert_eq!(known, 26 + 10 + 12 + 30);
    for h in 0u16..=0xFFFF {
        if let Some(vk) = hid_to_vk(h) {
            assert_eq!(vk_to_hid(vk), Some(h), "usage 0x{:04X}", h);
        }
    }
}

#[test]
fn every_mac_key_round_trips() {
    let mut known = 0;
    for kc in 0u16..=0xFFFF {
        if let Some(h) = mac_keycode_to_hid(kc) {
            known += 1;
            assert_eq!(hid_to_mac_keycode(h), Some(kc), "key code 0x{:02X}", kc);
        }
    }
    assert_eq!(known, 77);
    for h in 0u16..=0xFFFF {
        if let Some(kc) = hid_to_mac_keycode(h) {
            assert_eq!(mac_keycode_to_hid(kc), Some(h), "usage 0x{:04X}", h);
        }
    }
}

#[test]
fn codes_of_single_keys() {
    assert_eq!(vk_to_hid(0x41), Some(0x04));
    assert_eq!(vk_to_hid(0x5A), Some(0x1D));
    assert_eq!(vk_to_hid(0x30), Some(0x27));
    assert_eq!(vk_to_hid(0x09), Some(0x2B));
    assert_eq!(vk_to_hid(0x0D), Some(0x28));
    assert_eq!(vk_to_hid(0x7B), Some(0x45));
    assert_eq!(vk_to_hid(0xA0), Some(hid::LSHIFT));
    assert_eq!(hid_to_vk(0x1E), Some(0x31));
    assert_eq!(mac_keycode_to_hid(0x00), Some(0x04));
    assert_eq!(mac_keycode_to_hid(0x37), Some(0xE3));
    assert_eq!(hid_to_mac_keycode(0x28), Some(0x24));
}

#[test]
fn unknown_codes_are_none() {
    assert_eq!(vk_to_hid(0x01), None);
    assert_eq!(vk_to_hid(0xFF), None);
    assert_eq!(vk_to_hid(0x141), None);
    assert_eq!(hid_to_vk(0x00), None);
    assert_eq!(hid_to_vk(0xFFFF), None);
    assert_eq!(mac_keycode_to_hid(0x7F), None);
    assert_eq!(hid_to_mac_keycode(0xE7), None);
}

#[test]
fn platforms_know_the_same_keys_but_for_the_right_command() {
    for h in 0u16..=0xFFFF {
        if h != hid::RGUI {
            assert_eq!(hid_to_vk(h).is_some(), hid_to_mac_keycode(h).is_some(), "usage 0x{:04X}", h);
        }
    }
    assert!(hid_to_vk(hid::RGUI).is_some());
}

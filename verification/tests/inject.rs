use crosslink::input::capture::windows::start_capture;
use crosslink::input::event::{InputEvent, KeyEvent, KeyState, MouseButton, MouseEvent};
use crosslink::input::inject::macos::{MacAction, MacPointer, Script};
use crosslink::input::inject::windows::WinInput;
use crosslink::input::inject::{fallback, macos, windows, InjectError};
use crosslink::input::screen::{get_cursor_pos, screen_size, set_cursor_pos};
use crosslink::input::{platform, CaptureMsg, CaptureOptions, TargetOs};
use crosslink::net::transport::test_events;

fn key(hid: u16, state: KeyState) -> InputEvent {
    InputEvent::Key(KeyEvent { hid, state })
}

fn mouse(dx: i16, dy: i16, edge: Option<(MouseButton, KeyState)>) -> InputEvent {
    InputEvent::Mouse(MouseEvent {
        dx,
        dy,
        button: edge.map(|e| e.0),
        state: edge.map(|e| e.1),
    })
}

#[test]
fn windows_keys() {
    assert_eq!(
        windows::inject(key(0x04, KeyState::Pressed)),
        Ok(vec![WinInput::Key { vk: 0x41, flags: 0 }])
    );
    assert_eq!(
        windows::inject(key(0x28, KeyState::Released)),
        Ok(vec![WinInput::Key { vk: 0x0D, flags: 2 }])
    );
}

#[test]
fn windows_buttons_and_movements() {
    for (b, s, flags) in [
        (MouseButton::Left, KeyState::Pressed, 0x02),
        (MouseButton::Left, KeyState::Released, 0x04),
        (MouseButton::Right, KeyState::Pressed, 0x08),
        (MouseButton::Right, KeyState::Released, 0x10),
        (MouseButton::Middle, KeyState::Pressed, 0x20),
        (MouseButton::Middle, KeyState::Released, 0x40),
    ] {
        assert_eq!(
            windows::inject(mouse(0, 0, Some((b, s)))),
            Ok(vec![WinInput::Mouse { dx: 0, dy: 0, flags }])
        );
    }
    assert_eq!(
        windows::inject(mouse(24, -12, None)),
        Ok(vec![WinInput::Mouse { dx: 24, dy: -12, flags: 1 }])
    );
    assert_eq!(
        windows::inject(mouse(-1, 0, Some((MouseButton::Left, KeyState::Pressed)))),
        Ok(vec![
            WinInput::Mouse { dx: 0, dy: 0, flags: 2 },
            WinInput::Mouse { dx: -1, dy: 0, flags: 1 },
        ])
    );
    assert_eq!(windows::inject(mouse(0, 0, None)), Ok(vec![]));
    let half = InputEvent::Mouse(MouseEvent {
        dx: 0,
        dy: 0,
        button: Some(MouseButton::Left),
        state: None,
    });
    assert_eq!(windows::inject(half), Ok(vec![]));
}

#[test]
fn unknown_keys_are_refused() {
    let unknown = InjectError::UnknownKey { hid: 0x00AB };
    assert_eq!(windows::inject(key(0xAB, KeyState::Pressed)), Err(unknown));
    let mut p = MacPointer::new();
    assert_eq!(macos::inject_event(&mut p, key(0xAB, KeyState::Pressed)), Err(unknown));
    assert_eq!(unknown.describe(), "inject: unknown HID key 0x00AB");
    assert_eq!(
        InjectError::UnknownKey { hid: 0xFFE7 }.describe(),
        "inject: unknown HID key 0xFFE7"
    );
}

#[test]
fn a_key_captured_on_windows_is_injected_as_itself() {
    let opts = CaptureOptions { win_w: 1, win_h: 1, mac_w: 0, mac_h: 0, m4_mode: false };
    for vk in 0..256usize {
        let mut c = start_capture(opts, 0);
        let mut states = vec![0i16; 256];
        states[vk] = i16::MIN;
        for msg in c.poll_keys(&states) {
            match msg {
                CaptureMsg::Input(ev) => assert_eq!(
                    windows::inject(ev),
                    Ok(vec![WinInput::Key { vk: vk as u16, flags: 0 }])
                ),
                CaptureMsg::CursorState { .. } => panic!("no cursor state expected"),
            }
        }
    }
}

#[test]
fn mac_keys_are_posted_and_scripted() {
    let mut p = MacPointer::new();
    assert_eq!(
        macos::inject_event(&mut p, key(0x28, KeyState::Pressed)),
        Ok(vec![
            MacAction::PostKey { keycode: 0x24, down: true },
            MacAction::Run(Script::KeyCode { keycode: 0x24 }),
        ])
    );
    assert_eq!(
        macos::inject_event(&mut p, key(0x28, KeyState::Released)),
        Ok(vec![MacAction::PostKey { keycode: 0x24, down: false }])
    );
    assert_eq!(
        Script::KeyCode { keycode: 0x24 }.text(),
        "tell application \"System Events\" to key code 36"
    );
}

#[test]
fn mac_buttons_are_posted_at_the_cursor() {
    let mut p = MacPointer::new();
    assert_eq!(macos::inject_event(&mut p, mouse(100, 50, None)), Ok(vec![]));
    assert_eq!(macos::inject_event(&mut p, mouse(-30, -60, None)), Ok(vec![]));
    assert_eq!((p.x, p.y), (70, -10));
    for (b, s, kind, button) in [
        (MouseButton::Left, KeyState::Released, 2, 0),
        (MouseButton::Right, KeyState::Released, 4, 1),
        (MouseButton::Middle, KeyState::Released, 26, 2),
    ] {
        assert_eq!(
            macos::inject_event(&mut p, mouse(0, 0, Some((b, s)))),
            Ok(vec![MacAction::PostMouse { kind, x: 70, y: -10, button }])
        );
    }
    for (b, kind, button) in
        [(MouseButton::Left, 1, 0), (MouseButton::Right, 3, 1), (MouseButton::Middle, 25, 2)]
    {
        assert_eq!(
            macos::inject_event(&mut p, mouse(0, 0, Some((b, KeyState::Pressed)))),
            Ok(vec![
                MacAction::PostMouse { kind, x: 70, y: -10, button },
                MacAction::Run(Script::ClickAt { x: 70, y: -10 }),
            ])
        );
    }
    assert_eq!(
        Script::ClickAt { x: 70, y: -10 }.text(),
        format!("tell application \"System Events\" to click at {{{}, {}}}", 70.0f64, -10.0f64)
    );
}

#[test]
fn far_clicks_are_written_like_floating_point_numbers() {
    let click = |x: i128| Script::ClickAt { x, y: -x }.text();
    let expected = |x: i128| {
        let f = x as f64;
        format!("tell application \"System Events\" to click at {{{}, {}}}", f, -f)
    };
    assert_eq!(
        click(1 << 60),
        "tell application \"System Events\" to click at {1152921504606847000, -1152921504606847000}"
    );
    for bits in 1..=69 {
        let p = 1i128 << bits;
        for x in [p - 1, p, p + 1, p + p / 3, p + p / 7, p - p / 5] {
            if x <= 1 << 69 {
                assert_eq!(click(x), expected(x), "{}", x);
            }
        }
    }
    let mut ten = 1i128;
    for _ in 0..20 {
        ten *= 10;
        for d in [-3, -2, -1, 0, 1, 2, 3, 4097, -4097] {
            for m in 1..6 {
                if ten * m + d > 0 && ten * m + d <= 1 << 69 {
                    assert_eq!(click(ten * m + d), expected(ten * m + d));
                }
            }
        }
    }
    let mut seed: u64 = 88172645463325252;
    for i in 0..20_000u32 {
        seed ^= seed << 13;
        seed ^= seed >> 7;
        seed ^= seed << 17;
        let x = ((seed as i128) << 5) >> (i % 20);
        assert_eq!(click(x), expected(x), "{}", x);
    }
}

#[test]
fn an_edge_is_posted_before_its_movement() {
    let mut p = MacPointer::new();
    let r = macos::inject_event(&mut p, mouse(5, 5, Some((MouseButton::Left, KeyState::Released))));
    assert_eq!(r, Ok(vec![MacAction::PostMouse { kind: 2, x: 0, y: 0, button: 0 }]));
    assert_eq!((p.x, p.y), (5, 5));
}

#[test]
fn movements_add_up_to_a_position() {
    let mut p = MacPointer::new();
    let (mut x, mut y) = (0f64, 0f64);
    let mut d: i16 = 1;
    for _ in 0..5000 {
        d = d.wrapping_mul(31).wrapping_add(7);
        macos::inject_event(&mut p, mouse(d, d.wrapping_neg() / 3, None)).unwrap();
        x += d as f64;
        y += (d.wrapping_neg() / 3) as f64;
    }
    assert_eq!((p.x as f64, p.y as f64), (x, y));
}

#[test]
fn cursor_states_place_and_hide_the_cursor() {
    let mut p = MacPointer::new();
    assert_eq!(
        macos::handle_cursor_state(&mut p, true, 300, 200),
        vec![
            MacAction::PostMouse { kind: 5, x: 300, y: 200, button: 0 },
            MacAction::ShowCursor,
        ]
    );
    assert!(p.shown);
    assert_eq!(
        macos::inject_event(&mut p, mouse(0, 0, Some((MouseButton::Left, KeyState::Released)))),
        Ok(vec![MacAction::PostMouse { kind: 2, x: 300, y: 200, button: 0 }])
    );
    assert_eq!(macos::handle_cursor_state(&mut p, false, 1, 2), vec![MacAction::HideCursor]);
    assert_eq!(p, MacPointer { x: 300, y: 200, shown: false });
}

#[test]
fn cursor_states_mean_nothing_elsewhere() {
    assert_eq!(windows::handle_cursor_state(true, 1, 2), Ok(()));
    assert_eq!(fallback::handle_cursor_state(true, 1, 2), Ok(()));
    assert_eq!(fallback::inject_event(key(0xAB, KeyState::Pressed)), Ok(()));
}

#[test]
fn other_platforms_have_no_screen() {
    assert_eq!(screen_size(), (0, 0));
    set_cursor_pos(5, 5);
    assert_eq!(get_cursor_pos(), (0, 0));
}

#[test]
fn the_test_sequence_can_be_injected_on_windows() {
    let mut inputs = Vec::new();
    for ev in test_events() {
        inputs.extend(windows::inject(ev).unwrap());
    }
    let key = |vk, flags| WinInput::Key { vk, flags };
    assert_eq!(
        inputs,
        vec![
            key(0x41, 0),
            key(0x42, 0),
            key(0x31, 0),
            key(0x09, 0),
            key(0x0D, 0),
            key(0x0D, 2),
            key(0x09, 2),
            key(0x31, 2),
            key(0x42, 2),
            key(0x41, 2),
            WinInput::Mouse { dx: 24, dy: 12, flags: 1 },
            WinInput::Mouse { dx: 0, dy: 0, flags: 2 },
            WinInput::Mouse { dx: 0, dy: 0, flags: 4 },
        ]
    );
}

#[test]
fn platforms_have_names() {
    assert_eq!(platform(TargetOs::Windows), "windows");
    assert_eq!(platform(TargetOs::MacOs), "macos");
    assert_eq!(platform(TargetOs::Linux), "linux");
    assert_eq!(platform(TargetOs::Other), "unknown");
}

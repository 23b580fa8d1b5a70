use crosslink::input::capture::macos::{flag_bit_for, EventKind, TapEvent};
use crosslink::input::capture::seamless::{CursorCommand, Seamless};
use crosslink::input::capture::windows::{
    drain_raw_mouse, start_capture, Capture, Poll, RawRecord,
};
use crosslink::input::capture::{fallback, macos};
use crosslink::input::event::{InputEvent, KeyEvent, KeyState, MouseButton, MouseEvent};
use crosslink::input::{CaptureMsg, CaptureOptions};

fn options(m4_mode: bool) -> CaptureOptions {
    CaptureOptions { win_w: 1920, win_h: 1080, mac_w: 1440, mac_h: 900, m4_mode }
}

fn key(hid: u16, state: KeyState) -> CaptureMsg {
    CaptureMsg::Input(InputEvent::Key(KeyEvent { hid, state }))
}

fn button(button: MouseButton, state: KeyState) -> InputEvent {
    InputEvent::Mouse(MouseEvent { dx: 0, dy: 0, button: Some(button), state: Some(state) })
}

fn moved(dx: i16, dy: i16) -> InputEvent {
    InputEvent::Mouse(MouseEvent { dx, dy, button: None, state: None })
}

fn cursor_state(on_mac: bool, x: u32, y: u32) -> Option<CaptureMsg> {
    Some(CaptureMsg::CursorState { on_mac, x, y })
}

/// A capture in seamless mode whose cursor has just passed to the Mac, at time 0.
fn on_the_mac() -> Capture {
    let mut c = start_capture(options(true), 0);
    let f = c.seamless.step(c.opts, (1910, 540), (20, 0), 0);
    assert!(f.again);
    c
}

const MS: u64 = 1_000_000;

#[test]
fn keys_are_reported_once_per_edge() {
    let mut c = start_capture(options(false), 0);
    let mut states = vec![0i16; 256];
    assert_eq!(c.poll_keys(&states), vec![]);
    states[0x41] = i16::MIN;
    states[0x0D] = -32767;
    states[0x20] = 1;
    assert_eq!(
        c.poll_keys(&states),
        vec![key(0x28, KeyState::Pressed), key(0x04, KeyState::Pressed)]
    );
    assert_eq!(c.poll_keys(&states), vec![]);
    states[0x41] = 0;
    states[0x0D] = 0;
    assert_eq!(
        c.poll_keys(&states),
        vec![key(0x28, KeyState::Released), key(0x04, KeyState::Released)]
    );
}

#[test]
fn unmapped_keys_are_dropped() {
    let mut c = start_capture(options(false), 0);
    let mut states = vec![0i16; 256];
    states[0x01] = i16::MIN;
    states[0xFF] = i16::MIN;
    assert_eq!(c.poll_keys(&states), vec![]);
    assert!(c.prev_keys[0xFF]);
}

#[test]
fn buttons_are_reported_in_order() {
    let mut c = start_capture(options(false), 0);
    assert_eq!(
        c.poll_buttons(&[i16::MIN, i16::MIN, i16::MIN]),
        vec![
            CaptureMsg::Input(button(MouseButton::Left, KeyState::Pressed)),
            CaptureMsg::Input(button(MouseButton::Right, KeyState::Pressed)),
            CaptureMsg::Input(button(MouseButton::Middle, KeyState::Pressed)),
        ]
    );
    assert_eq!(
        c.poll_buttons(&[i16::MIN, 0, i16::MIN]),
        vec![CaptureMsg::Input(button(MouseButton::Right, KeyState::Released))]
    );
    assert_eq!(c.poll_buttons(&[i16::MIN, 0, i16::MIN]), vec![]);
}

#[test]
fn movement_is_the_difference_of_positions() {
    let mut c = start_capture(options(false), 0);
    assert_eq!(c.poll_move(Some((100, 100))), None);
    assert_eq!(c.poll_move(None), None);
    assert_eq!(c.poll_move(Some((124, 88))), Some(CaptureMsg::Input(moved(24, -12))));
    assert_eq!(c.poll_move(Some((124, 88))), None);
    // the low 16 bits travel
    assert_eq!(c.poll_move(Some((124 + 65536, 88))), None);
    assert_eq!(c.poll_move(Some((124 + 65536 + 40000, 89))), Some(CaptureMsg::Input(moved(-25536, 1))));
    assert_eq!(c.last_pos, Some((124 + 65536 + 40000, 89)));
}

#[test]
fn movements_that_do_not_fit_are_told_apart() {
    let mut c = start_capture(options(false), 0);
    assert!(c.can_move(Some((i32::MIN, 0))));
    c.poll_move(Some((i32::MIN, 0)));
    assert!(!c.can_move(Some((0, 0))));
    assert!(c.can_move(Some((-1, 0))));
    assert!(c.can_move(None));
}

#[test]
fn raw_movements_are_summed() {
    let rec = |dw_type, flags, last_x, last_y| RawRecord { dw_type, flags, last_x, last_y };
    assert_eq!(drain_raw_mouse(&[]), (0, 0));
    assert_eq!(
        drain_raw_mouse(&[
            rec(0, 0, 3, -4),
            rec(1, 0, 100, 100),
            rec(0, 1, 1000, 1000),
            rec(0, 2, -1, 10),
            rec(0, 0, i32::MAX, i32::MIN),
        ]),
        (2 + i32::MAX as i64, 6 + i32::MIN as i64)
    );
}

#[test]
fn nothing_is_forwarded_while_the_cursor_is_here() {
    let mut c = start_capture(options(true), 0);
    let mut states = vec![0i16; 256];
    states[0x41] = i16::MIN;
    assert_eq!(c.poll_keys(&states), vec![]);
    assert_eq!(c.poll_buttons(&[i16::MIN, 0, 0]), vec![]);
    // the edges are gone: the key is not pressed again on the Mac
    c.seamless.step(c.opts, (1919, 540), (5, 0), 0);
    assert!(c.seamless.on_mac);
    assert_eq!(c.poll_keys(&states), vec![]);
    states[0x41] = 0;
    assert_eq!(c.poll_keys(&states), vec![key(0x04, KeyState::Released)]);
    assert_eq!(
        c.poll_buttons(&[0, 0, 0]),
        vec![CaptureMsg::Input(button(MouseButton::Left, KeyState::Released))]
    );
}

#[test]
fn raw_movement_drives_the_cursor_here() {
    let mut c = start_capture(options(true), 0);
    let f = c.seamless.step(c.opts, (100, 100), (10, -5), 0);
    assert_eq!(f.commands, vec![CursorCommand::MoveTo { x: 110, y: 95 }]);
    assert_eq!((f.msg, f.again), (None, false));
    let f = c.seamless.step(c.opts, (100, 100), (-500, 5000), 0);
    assert_eq!(f.commands, vec![CursorCommand::MoveTo { x: 0, y: 1079 }]);
    let f = c.seamless.step(c.opts, (1919, 100), (0, 0), 0);
    assert_eq!(f.commands, vec![]);
    assert!(!c.seamless.on_mac);
    // at the right edge, but not to the right
    let f = c.seamless.step(c.opts, (1919, 100), (0, 3), 0);
    assert_eq!((f.msg, c.seamless.on_mac), (None, false));
}

#[test]
fn the_cursor_enters_the_mac_at_the_right_edge() {
    let mut c = start_capture(options(true), 0);
    let f = c.seamless.step(c.opts, (1910, 540), (20, 0), 7);
    assert_eq!(
        f.commands,
        vec![
            CursorCommand::MoveTo { x: 1919, y: 540 },
            CursorCommand::Hide,
            CursorCommand::MoveTo { x: 0, y: 540 },
        ]
    );
    assert_eq!(f.msg, cursor_state(true, 0, 450));
    assert!(f.again);
    assert_eq!(
        c.seamless,
        Seamless {
            on_mac: true,
            mac_x: 0,
            mac_y: 450,
            pin_y: 540,
            last_sent: None,
            last_stream_ns: 7,
        }
    );
}

#[test]
fn the_cursor_leaves_the_mac_at_its_left_edge() {
    let mut c = on_the_mac();
    let f = c.seamless.step(c.opts, (0, 540), (-1, 0), 100 * MS);
    assert_eq!(
        f.commands,
        vec![
            CursorCommand::Hide,
            CursorCommand::Show,
            CursorCommand::MoveTo { x: 1919, y: 540 },
        ]
    );
    assert_eq!(f.msg, cursor_state(false, 0, 0));
    assert!(f.again && !c.seamless.on_mac);
    // resting there it does not go back
    let f = c.seamless.step(c.opts, (1919, 540), (0, 0), 101 * MS);
    assert_eq!((f.msg, f.again), (None, false));
}

#[test]
fn the_cursor_comes_back_through_the_left_edge_only() {
    let mut c = on_the_mac();
    c.seamless.step(c.opts, (0, 540), (5, 0), 20 * MS);
    let f = c.seamless.step(c.opts, (0, 540), (-5, 0), 40 * MS);
    assert_eq!((f.msg, c.seamless.on_mac), (cursor_state(true, 0, 450), true));
    let f = c.seamless.step(c.opts, (0, 540), (-5, 0), 60 * MS);
    assert_eq!((f.msg, c.seamless.on_mac), (cursor_state(false, 0, 0), false));
}

#[test]
fn the_local_cursor_is_pinned_and_hidden() {
    let mut c = on_the_mac();
    let f = c.seamless.step(c.opts, (3, 540), (0, 0), MS);
    assert_eq!(f.commands, vec![CursorCommand::MoveTo { x: 0, y: 540 }, CursorCommand::Hide]);
    let f = c.seamless.step(c.opts, (0, 540), (0, 0), MS);
    assert_eq!(f.commands, vec![CursorCommand::Hide]);
    let f = c.seamless.step(c.opts, (0, 541), (1, 0), MS);
    assert_eq!(f.commands, vec![CursorCommand::MoveTo { x: 0, y: 540 }, CursorCommand::Hide]);
}

#[test]
fn positions_are_streamed_every_sixteen_milliseconds() {
    let mut c = on_the_mac();
    assert_eq!(c.seamless.step(c.opts, (0, 540), (10, 12), 15 * MS).msg, None);
    assert_eq!((c.seamless.mac_x, c.seamless.mac_y), (10, 460));
    assert_eq!(
        c.seamless.step(c.opts, (0, 540), (10, 0), 16 * MS).msg,
        cursor_state(true, 20, 460)
    );
    assert_eq!(c.seamless.step(c.opts, (0, 540), (10, 0), 31 * MS).msg, None);
    assert_eq!(
        c.seamless.step(c.opts, (0, 540), (-10, 0), 40 * MS).msg,
        None,
        "the position was streamed already"
    );
    assert_eq!(
        c.seamless.step(c.opts, (0, 540), (1, 0), 41 * MS).msg,
        cursor_state(true, 21, 460)
    );
    assert_eq!(c.seamless.step(c.opts, (0, 540), (1, 0), 3 * MS).msg, None);
}

#[test]
fn the_edges_of_the_mac_hold_the_cursor() {
    let mut c = on_the_mac();
    let f = c.seamless.step(c.opts, (0, 540), (9000, 9000), 20 * MS);
    assert_eq!(f.msg, cursor_state(true, 1440, 900));
    c.seamless.step(c.opts, (0, 540), (9000, 0), 40 * MS);
    let f = c.seamless.step(c.opts, (0, 540), (-40, -12), 60 * MS);
    assert_eq!(f.msg, cursor_state(true, 1400, 890));
    let f = c.seamless.step(c.opts, (0, 540), (0, -5000), 80 * MS);
    assert_eq!(f.msg, cursor_state(true, 1400, 0));
}

#[test]
fn a_new_peer_geometry_counts_at_once() {
    let mut c = on_the_mac();
    c.set_peer_geom(100, 50);
    let f = c.seamless.step(c.opts, (0, 540), (500, 0), 20 * MS);
    assert_eq!(f.msg, cursor_state(true, 100, 50));
    assert_eq!((c.opts.mac_w, c.opts.mac_h, c.opts.win_w), (100, 50, 1920));
}

#[test]
fn an_unknown_peer_holds_the_cursor_at_its_origin() {
    let mut c = start_capture(CaptureOptions { mac_w: 0, mac_h: 0, ..options(true) }, 0);
    let f = c.seamless.step(c.opts, (1919, 540), (1, 0), 0);
    assert_eq!(f.msg, cursor_state(true, 0, 0));
    assert_eq!(c.seamless.mac_y, 540);
    let f = c.seamless.step(c.opts, (0, 540), (1, 0), 20 * MS);
    assert_eq!(f.msg, cursor_state(true, 0, 0));
}

#[test]
fn frames_that_do_not_fit_are_told_apart() {
    let c = start_capture(options(true), 0);
    assert!(c.seamless.can_step(c.opts, (0, 0), (1, 1)));
    assert!(!c.seamless.can_step(c.opts, (1, 0), (i64::MAX, 0)));
    let flat = CaptureOptions { win_h: 0, ..options(true) };
    assert!(!c.seamless.can_step(flat, (0, 0), (1, 0)));
    assert!(c.seamless.can_step(flat, (0, 0), (0, 0)));
    let huge = CaptureOptions { win_w: 0x8000_0000, ..options(true) };
    assert!(!c.seamless.can_step(huge, (0, 0), (0, 0)));
    let m = on_the_mac();
    assert!(m.seamless.can_step(m.opts, (0, 0), (i64::MAX, 0)));
    assert!(!m.seamless.can_step(m.opts, (0, 0), (0, i64::MAX)) || m.opts.mac_h < m.opts.win_h);
}

#[test]
fn a_plain_round_forwards_keys_buttons_and_movement() {
    let mut c = start_capture(options(false), 0);
    let mut keys = vec![0i16; 256];
    keys[0x41] = i16::MIN;
    let mut poll = Poll {
        keys,
        buttons: vec![0, i16::MIN, 0],
        cursor: Some((10, 10)),
        raw: vec![RawRecord { dw_type: 0, flags: 0, last_x: 500, last_y: 500 }],
        now_ns: 0,
    };
    assert!(c.can_round(&poll));
    let r = c.round(&poll);
    assert_eq!(
        r.events,
        vec![
            key(0x04, KeyState::Pressed),
            CaptureMsg::Input(button(MouseButton::Right, KeyState::Pressed)),
        ]
    );
    assert_eq!((r.commands, r.cursor_state, r.again), (vec![], None, false));
    poll.cursor = Some((13, 6));
    assert_eq!(c.round(&poll).events, vec![CaptureMsg::Input(moved(3, -4))]);
    poll.cursor = None;
    assert_eq!(c.round(&poll).events, vec![]);
    assert_eq!(c.last_pos, Some((13, 6)));
}

#[test]
fn a_seamless_round_drives_the_cursor() {
    let mut c = start_capture(options(true), 0);
    let mut poll = Poll {
        keys: vec![0i16; 256],
        buttons: vec![0; 3],
        cursor: Some((1900, 540)),
        raw: vec![
            RawRecord { dw_type: 0, flags: 0, last_x: 15, last_y: 0 },
            RawRecord { dw_type: 0, flags: 0, last_x: 10, last_y: 0 },
        ],
        now_ns: 0,
    };
    poll.keys[0x41] = i16::MIN;
    let r = c.round(&poll);
    assert_eq!(r.events, vec![], "nothing is forwarded from here");
    assert_eq!(r.cursor_state, cursor_state(true, 0, 450));
    assert_eq!(r.commands.len(), 3);
    assert!(r.again);
    poll.keys[0x42] = i16::MIN;
    poll.cursor = None;
    poll.now_ns = 16 * MS;
    let r = c.round(&poll);
    assert_eq!(r.events, vec![key(0x05, KeyState::Pressed)]);
    assert_eq!(r.cursor_state, cursor_state(true, 25, 450));
    assert_eq!(
        r.commands,
        vec![CursorCommand::MoveTo { x: 0, y: 540 }, CursorCommand::Hide],
        "a cursor that cannot be read counts as one at the origin"
    );
    assert!(!r.again && c.last_pos.is_none());
}

#[test]
fn rounds_that_do_not_fit_are_told_apart() {
    let poll = |raw: Vec<RawRecord>| Poll {
        keys: vec![0i16; 256],
        buttons: vec![0; 3],
        cursor: Some((0, 0)),
        raw,
        now_ns: 0,
    };
    let step = vec![RawRecord { dw_type: 0, flags: 0, last_x: 1, last_y: 0 }];
    let flat = start_capture(CaptureOptions { win_w: 0, ..options(true) }, 0);
    assert!(!flat.can_round(&poll(step)));
    assert!(flat.can_round(&poll(vec![])));
    let mut far = start_capture(options(false), 0);
    far.poll_move(Some((i32::MIN, 0)));
    assert!(!far.can_round(&poll(vec![])));
}

#[test]
fn mac_keys_and_buttons() {
    let mut c = macos::start_capture();
    let ev = |kind, keycode| TapEvent { kind, keycode, flags: 0, delta_x: 9, delta_y: 9 };
    let typed = |hid, state| Some(InputEvent::Key(KeyEvent { hid, state }));
    assert_eq!(c.translate(ev(EventKind::KeyDown, 0)), typed(0x04, KeyState::Pressed));
    assert_eq!(c.translate(ev(EventKind::KeyUp, 0x24)), typed(0x28, KeyState::Released));
    assert_eq!(c.translate(ev(EventKind::KeyDown, 0x1_0000)), typed(0x04, KeyState::Pressed));
    assert_eq!(c.translate(ev(EventKind::KeyDown, 0x7F)), None);
    for (kind, b, state) in [
        (EventKind::LeftMouseDown, MouseButton::Left, KeyState::Pressed),
        (EventKind::LeftMouseUp, MouseButton::Left, KeyState::Released),
        (EventKind::RightMouseDown, MouseButton::Right, KeyState::Pressed),
        (EventKind::RightMouseUp, MouseButton::Right, KeyState::Released),
        (EventKind::OtherMouseDown, MouseButton::Middle, KeyState::Pressed),
        (EventKind::OtherMouseUp, MouseButton::Middle, KeyState::Released),
    ] {
        assert_eq!(c.translate(ev(kind, 0)), Some(button(b, state)));
    }
    assert_eq!(c.translate(ev(EventKind::Other, 0)), None);
    assert_eq!(c.prev_flags, 0);
}

#[test]
fn mac_movements() {
    let mut c = macos::start_capture();
    for kind in [
        EventKind::MouseMoved,
        EventKind::LeftMouseDragged,
        EventKind::RightMouseDragged,
        EventKind::OtherMouseDragged,
    ] {
        let mut ev = |delta_x, delta_y| {
            c.translate(TapEvent { kind, keycode: 0, flags: 0, delta_x, delta_y })
        };
        assert_eq!(ev(3, -4), Some(moved(3, -4)));
        assert_eq!(ev(0, 0), None);
        assert_eq!(ev(0x1_0000, 0), None);
        assert_eq!(ev(40000, 1), Some(moved(-25536, 1)));
    }
}

#[test]
fn mac_modifiers_follow_their_flag() {
    let mut c = macos::start_capture();
    let ev = |keycode, flags| TapEvent {
        kind: EventKind::FlagsChanged,
        keycode,
        flags,
        delta_x: 0,
        delta_y: 0,
    };
    let typed = |hid, state| Some(InputEvent::Key(KeyEvent { hid, state }));
    assert_eq!(c.translate(ev(0x38, 0x20102)), typed(0xE1, KeyState::Pressed));
    assert_eq!(c.translate(ev(0x38, 0x20102)), None);
    // the other Shift shares the flag
    assert_eq!(c.translate(ev(0x3C, 0x20106)), None);
    assert_eq!(c.translate(ev(0x37, 0x12_0000)), typed(0xE3, KeyState::Pressed));
    assert_eq!(c.translate(ev(0x38, 0x10_0000)), typed(0xE1, KeyState::Released));
    assert_eq!(c.translate(ev(0x37, 0)), typed(0xE3, KeyState::Released));
    // keys without a flag of their own are not followed
    assert_eq!(c.translate(ev(0x3D, 0x80000)), None);
    assert_eq!(c.prev_flags, 0);
    assert_eq!(c.translate(ev(0x39, 0x10000)), typed(0x39, KeyState::Pressed));
    assert_eq!(flag_bit_for(0x3A), Some(0x80000));
    assert_eq!(flag_bit_for(0x3B), Some(0x40000));
    assert_eq!(flag_bit_for(0x3D), None);
}

#[test]
fn other_platforms_capture_nothing() {
    assert_eq!(fallback::start_capture(options(true)), vec![]);
}

#[test]
fn key_events_alternate_over_many_rounds() {
    let mut c = start_capture(options(false), 0);
    let mut poll = Poll {
        keys: vec![0i16; 256],
        buttons: vec![0; 3],
        cursor: Some((0, 0)),
        raw: vec![],
        now_ns: 0,
    };
    let mut seed: u32 = 7;
    let mut held = vec![false; 0x1_0000];
    let mut seen = 0;
    for _ in 0..3000 {
        for _ in 0..4 {
            seed = seed.wrapping_mul(1664525).wrapping_add(1013904223);
            poll.keys[(seed >> 24) as usize] = if seed & 0x8000 != 0 { i16::MIN } else { 1 };
        }
        let r = c.round(&poll);
        assert_eq!(r.cursor_state, None);
        for msg in r.events {
            match msg {
                CaptureMsg::Input(InputEvent::Key(k)) => {
                    assert_eq!(k.state == KeyState::Pressed, !held[k.hid as usize]);
                    held[k.hid as usize] = k.state == KeyState::Pressed;
                    seen += 1;
                }
                CaptureMsg::Input(InputEvent::Mouse(_)) => {}
                CaptureMsg::CursorState { .. } => panic!("no cursor state expected"),
            }
        }
    }
    assert!(seen > 500);
}

#[test]
fn input_is_sent_on_visits_only_over_many_rounds() {
    let mut c = start_capture(options(true), 0);
    let mut seed: u32 = 99;
    let (mut visiting, mut visits, mut inputs) = (false, 0, 0);
    let mut x = 1900i32;
    for n in 0..5000u64 {
        seed = seed.wrapping_mul(1664525).wrapping_add(1013904223);
        let mut keys = vec![0i16; 256];
        keys[0x41] = if seed & 0x100 != 0 { i16::MIN } else { 0 };
        let poll = Poll {
            keys,
            buttons: vec![0; 3],
            cursor: Some((x, 540)),
            raw: vec![RawRecord {
                dw_type: 0,
                flags: 0,
                last_x: (seed >> 20) as i32 % 101 - 50,
                last_y: 0,
            }],
            now_ns: n * 5 * MS,
        };
        assert!(c.can_round(&poll));
        let r = c.round(&poll);
        inputs += r.events.len();
        assert!(r.events.is_empty() || visiting);
        for cmd in r.commands {
            if let CursorCommand::MoveTo { x: to, .. } = cmd {
                x = to;
            }
        }
        if let Some(CaptureMsg::CursorState { on_mac, x, .. }) = r.cursor_state {
            if on_mac && !visiting {
                assert_eq!(x, 0);
                visits += 1;
            }
            assert!(on_mac || visiting);
            visiting = on_mac;
        }
    }
    assert!(visits > 3 && inputs > 10);
}

//! Injection on Windows and on macOS, and what becomes of a captured event on the other machine.

use vstd::prelude::*;

use crate::input::capture::macos::{EventKind, MacCapture, TapEvent};
use crate::input::event::{InputEvent, KeyEvent, KeyState, MouseButton, MouseEvent};
use crate::input::inject::macos;
use crate::input::inject::macos::{MacAction, MacPointer, Script};
use crate::input::inject::windows;
use crate::input::inject::windows::WinInput;
use crate::input::inject::InjectError;
use crate::input::keycodes;

verus! {

/// The event of a key.
pub open spec fn key(hid: u16, state: KeyState) -> InputEvent {
    InputEvent::Key(KeyEvent { hid, state })
}

/// On Windows every key that the table names is injected as one input with its virtual key, with
/// the key-up flag, 2, where it is released. Every other key is refused, and named in the refusal.
pub proof fn windows_injects_every_known_key(vk: u16, h: u16)
    ensures
        keycodes::vk_names(vk, h) ==> {
            &&& windows::inputs_of(key(h, KeyState::Pressed)) == Ok::<Seq<WinInput>, InjectError>(
                seq![WinInput::Key { vk, flags: 0 }],
            )
            &&& windows::inputs_of(key(h, KeyState::Released)) == Ok::<Seq<WinInput>, InjectError>(
                seq![WinInput::Key { vk, flags: 2 }],
            )
        },
        (forall|v: u16| !keycodes::vk_names(v, h)) ==> forall|state: KeyState|
            #[trigger] windows::inputs_of(key(h, state)) == Err::<Seq<WinInput>, InjectError>(
                InjectError::UnknownKey { hid: h },
            ),
{
    if keycodes::vk_names(vk, h) {
        keycodes::vk_round_trip(vk, h);
        assert(seq![WinInput::Key { vk, flags: 0 }] =~= windows::inputs_of(
            key(h, KeyState::Pressed),
        )->Ok_0);
        assert(seq![WinInput::Key { vk, flags: 2 }] =~= windows::inputs_of(
            key(h, KeyState::Released),
        )->Ok_0);
    }
}

/// The flag by which Windows knows an edge of a button.
pub open spec fn windows_button_flag(button: MouseButton, state: KeyState) -> u32 {
    match button {
        MouseButton::Left => if state is Pressed {
            0x02
        } else {
            0x04
        },
        MouseButton::Right => if state is Pressed {
            0x08
        } else {
            0x10
        },
        MouseButton::Middle => if state is Pressed {
            0x20
        } else {
            0x40
        },
    }
}

/// On Windows every mouse event is injected as it is: a button edge as one input with the flag of
/// that edge and no movement, then a movement, whatever its direction, as one relative movement of
/// exactly its length. An event with neither injects nothing.
pub proof fn windows_injects_every_mouse_event(m: MouseEvent)
    ensures
        ({
            let edge = match (m.button, m.state) {
                (Some(button), Some(state)) => seq![
                    WinInput::Mouse { dx: 0, dy: 0, flags: windows_button_flag(button, state) },
                ],
                _ => Seq::empty(),
            };
            let way = if m.dx != 0 || m.dy != 0 {
                seq![WinInput::Mouse { dx: m.dx as i32, dy: m.dy as i32, flags: 0x01 }]
            } else {
                Seq::empty()
            };
            &&& windows::inputs_of(InputEvent::Mouse(m)) is Ok
            &&& windows::inputs_of(InputEvent::Mouse(m))->Ok_0 == edge + way
            &&& windows::mouse_inputs(m) == edge + way
        }),
{
    let edge = match (m.button, m.state) {
        (Some(button), Some(state)) => seq![
            WinInput::Mouse { dx: 0, dy: 0, flags: windows_button_flag(button, state) },
        ],
        _ => Seq::<WinInput>::empty(),
    };
    let way = if m.dx != 0 || m.dy != 0 {
        seq![WinInput::Mouse { dx: m.dx as i32, dy: m.dy as i32, flags: 0x01 }]
    } else {
        Seq::<WinInput>::empty()
    };
    assert(windows::mouse_inputs(m) =~= edge + way);
}

/// On macOS every key that the table names is posted with its key code, in its direction, and a
/// press is scripted too. Every other key is refused, and named in the refusal. No key moves the
/// cursor.
pub proof fn macos_injects_every_known_key(p: MacPointer, kc: u16, h: u16)
    ensures
        keycodes::mac::mac_key_names(kc, h) ==> {
            let press = p.actions(key(h, KeyState::Pressed));
            let release = p.actions(key(h, KeyState::Released));
            &&& press is Ok && release is Ok
            &&& press->Ok_0.len() == 2
            &&& press->Ok_0[0] == (MacAction::PostKey { keycode: kc, down: true })
            &&& press->Ok_0[1] == MacAction::Run(Script::KeyCode { keycode: kc })
            &&& release->Ok_0.len() == 1
            &&& release->Ok_0[0] == (MacAction::PostKey { keycode: kc, down: false })
        },
        (forall|c: u16| !keycodes::mac::mac_key_names(c, h)) ==> forall|state: KeyState|
            #[trigger] p.actions(key(h, state)) == Err::<Seq<MacAction>, InjectError>(
                InjectError::UnknownKey { hid: h },
            ),
        forall|state: KeyState| #[trigger] p.moved(key(h, state)) == p,
{
    if keycodes::mac::mac_key_names(kc, h) {
        keycodes::mac::mac_round_trip(kc, h);
    }
}

/// The event type by which macOS knows an edge of a button, and the button's number.
pub open spec fn macos_button_codes(button: MouseButton, state: KeyState) -> (u32, u32) {
    match button {
        MouseButton::Left => if state is Pressed {
            (1, 0)
        } else {
            (2, 0)
        },
        MouseButton::Right => if state is Pressed {
            (3, 1)
        } else {
            (4, 1)
        },
        MouseButton::Middle => if state is Pressed {
            (25, 2)
        } else {
            (26, 2)
        },
    }
}

/// On macOS every button edge is posted where the cursor is, and a press is scripted as a click at
/// the same place. An event without one does nothing but move the cursor.
pub proof fn macos_injects_every_button(p: MacPointer, m: MouseEvent)
    ensures
        ({
            let actions = p.actions(InputEvent::Mouse(m));
            &&& actions is Ok
            &&& m.button is None || m.state is None ==> actions->Ok_0.len() == 0
            &&& m.button matches Some(button) ==> (m.state matches Some(state) ==> {
                let (kind, number) = macos_button_codes(button, state);
                &&& actions->Ok_0.len() == if state is Pressed {
                    2nat
                } else {
                    1
                }
                &&& actions->Ok_0[0] == (MacAction::PostMouse {
                    kind,
                    x: p.x,
                    y: p.y,
                    button: number,
                })
                &&& state is Pressed ==> actions->Ok_0[1] == MacAction::Run(
                    Script::ClickAt { x: p.x, y: p.y },
                )
            })
        }),
{
}

/// On macOS a movement, whatever its direction, moves the cursor by exactly its length, as long as
/// it stays within 2^53 of the origin. It does not show or hide the cursor.
pub proof fn macos_moves_the_cursor(p: MacPointer, m: MouseEvent)
    requires
        -0x20_0000_0000_0000 <= p.x + m.dx <= 0x20_0000_0000_0000,
        -0x20_0000_0000_0000 <= p.y + m.dy <= 0x20_0000_0000_0000,
    ensures
        ({
            let q = p.moved(InputEvent::Mouse(m));
            q.x == p.x + m.dx && q.y == p.y + m.dy && q.shown == p.shown
        }),
{
    crate::binary64::small_sums_are_exact(p.x + m.dx);
    crate::binary64::small_sums_are_exact(p.y + m.dy);
}

/// Moving there and back leaves the cursor where it was.
pub proof fn macos_moves_back(p: MacPointer, there: MouseEvent, back: MouseEvent)
    requires
        -0x10_0000_0000_0000 <= p.x <= 0x10_0000_0000_0000,
        -0x10_0000_0000_0000 <= p.y <= 0x10_0000_0000_0000,
        back.dx == -there.dx,
        back.dy == -there.dy,
    ensures
        p.moved(InputEvent::Mouse(there)).moved(InputEvent::Mouse(back)) == p,
{
    macos_moves_the_cursor(p, there);
    macos_moves_the_cursor(p.moved(InputEvent::Mouse(there)), back);
}

/// A cursor state with the cursor on the Mac puts it at that place and shows it. One with the
/// cursor elsewhere hides it and leaves its place.
pub proof fn macos_places_the_cursor(p: MacPointer, x: u32, y: u32)
    ensures
        p.placed(true, x, y).x == x,
        p.placed(true, x, y).y == y,
        p.placed(true, x, y).shown,
        p.placed(false, x, y).x == p.x,
        p.placed(false, x, y).y == p.y,
        !p.placed(false, x, y).shown,
{
}

/// A key captured on one Mac is posted on the other with the same key code, in the same direction.
pub proof fn a_key_goes_from_mac_to_mac(c: MacCapture, p: MacPointer, ev: TapEvent, kc: u16, h: u16)
    requires
        ev.kind is KeyDown || ev.kind is KeyUp,
        ev.keycode == kc,
        keycodes::mac::mac_key_names(kc, h),
    ensures
        c.translated(ev) matches Some(sent) && (p.actions(sent) matches Ok(actions)
            && actions.len() >= 1 && actions[0] == (MacAction::PostKey {
            keycode: kc,
            down: ev.kind is KeyDown,
        })),
{
    crate::laws::capture::mac_keys_are_named(c, ev, kc, h);
    macos_injects_every_known_key(p, kc, h);
}

/// A key captured on a Mac is injected on Windows as the key of the same usage id, in the same
/// direction.
pub proof fn a_key_goes_from_mac_to_windows(c: MacCapture, ev: TapEvent, kc: u16, vk: u16, h: u16)
    requires
        ev.kind is KeyDown || ev.kind is KeyUp,
        ev.keycode == kc,
        keycodes::mac::mac_key_names(kc, h),
        keycodes::vk_names(vk, h),
    ensures
        c.translated(ev) matches Some(sent) && (windows::inputs_of(sent) matches Ok(inputs)
            && inputs == seq![
            WinInput::Key {
                vk,
                flags: if ev.kind is KeyDown {
                    0
                } else {
                    2
                },
            },
        ]),
{
    crate::laws::capture::mac_keys_are_named(c, ev, kc, h);
    windows_injects_every_known_key(vk, h);
}

/// A click script names the place of the click: first across, then down, each in decimal.
pub proof fn click_scripts_name_the_place(x: i128, y: i128)
    requires
        -0x20_0000_0000_0000 < x < 0x20_0000_0000_0000,
        -0x20_0000_0000_0000 < y < 0x20_0000_0000_0000,
    ensures
        (Script::ClickAt { x, y }).source()
            == "tell application \"System Events\" to click at {"@ + crate::text::signed_decimal(
            x as int,
        ) + ", "@ + crate::text::signed_decimal(y as int) + "}"@,
{
    crate::binary64::small_integers_are_printed_in_full(x as int);
    crate::binary64::small_integers_are_printed_in_full(y as int);
}

/// A key script names the key code in decimal.
pub proof fn key_scripts_name_the_key(keycode: u16)
    ensures
        (Script::KeyCode { keycode }).source()
            == "tell application \"System Events\" to key code "@ + crate::text::decimal(
            keycode as nat,
        ),
{
}

/// A cursor that is on the Mac is moved to its place, by a movement that names the left button, and
/// then shown; one that is elsewhere is hidden, and nothing more is done.
pub proof fn macos_shows_the_cursor_where_it_is(x: u32, y: u32)
    ensures
        macos::placing(true, x, y).len() == 2,
        macos::placing(true, x, y)[0] == (MacAction::PostMouse {
            kind: 5,
            x: x as i128,
            y: y as i128,
            button: 0,
        }),
        macos::placing(true, x, y)[1] == MacAction::ShowCursor,
        macos::placing(false, x, y).len() == 1,
        macos::placing(false, x, y)[0] == MacAction::HideCursor,
{
}

/// Wherever the cursor is, a movement adds to both coordinates, in binary64, and does nothing else;
/// without one the cursor stays.
pub proof fn macos_adds_every_movement(p: MacPointer, m: MouseEvent)
    ensures
        m.dx != 0 || m.dy != 0 ==> p.moved(InputEvent::Mouse(m)) == (MacPointer {
            x: crate::binary64::sum_spec(p.x as int, m.dx as int) as i128,
            y: crate::binary64::sum_spec(p.y as int, m.dy as int) as i128,
            shown: p.shown,
        }),
        m.dx == 0 && m.dy == 0 ==> p.moved(InputEvent::Mouse(m)) == p,
{
}

} // verus!

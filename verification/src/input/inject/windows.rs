//! Injection on Windows.

use vstd::prelude::*;

use super::InjectError;
use crate::input::event::{InputEvent, KeyState, MouseButton};
use crate::input::keycodes::hid_to_vk;

verus! {

pub const KEYEVENTF_KEYUP: u32 = 0x02;

pub const MOUSEEVENTF_MOVE: u32 = 0x01;

pub const MOUSEEVENTF_LEFTDOWN: u32 = 0x02;

pub const MOUSEEVENTF_LEFTUP: u32 = 0x04;

pub const MOUSEEVENTF_RIGHTDOWN: u32 = 0x08;

pub const MOUSEEVENTF_RIGHTUP: u32 = 0x10;

pub const MOUSEEVENTF_MIDDLEDOWN: u32 = 0x20;

pub const MOUSEEVENTF_MIDDLEUP: u32 = 0x40;

/// One synthesized input, with the flags that the system knows.
#[derive(Debug, Clone, Copy, PartialEq, Eq, Structural)]
pub enum WinInput {
    Key { vk: u16, flags: u32 },
    Mouse { dx: i32, dy: i32, flags: u32 },
}

/// The flag of a key edge.
pub open spec fn key_flags(state: KeyState) -> u32 {
    match state {
        KeyState::Pressed => 0,
        KeyState::Released => KEYEVENTF_KEYUP,
    }
}

/// The flag of a button edge.
pub open spec fn button_flags(button: MouseButton, state: KeyState) -> u32 {
    match (button, state) {
        (MouseButton::Left, KeyState::Pressed) => MOUSEEVENTF_LEFTDOWN,
        (MouseButton::Left, KeyState::Released) => MOUSEEVENTF_LEFTUP,
        (MouseButton::Right, KeyState::Pressed) => MOUSEEVENTF_RIGHTDOWN,
        (MouseButton::Right, KeyState::Released) => MOUSEEVENTF_RIGHTUP,
        (MouseButton::Middle, KeyState::Pressed) => MOUSEEVENTF_MIDDLEDOWN,
        (MouseButton::Middle, KeyState::Released) => MOUSEEVENTF_MIDDLEUP,
    }
}

/// The inputs of a mouse event: the button edge, where it has one, then the movement, where it has
/// one.
pub open spec fn mouse_inputs(m: crate::input::event::MouseEvent) -> Seq<WinInput> {
    let edge = match (m.button, m.state) {
        (Some(button), Some(state)) => seq![
            WinInput::Mouse { dx: 0, dy: 0, flags: button_flags(button, state) },
        ],
        _ => Seq::empty(),
    };
    if m.dx == 0 && m.dy == 0 {
        edge
    } else {
        edge.push(WinInput::Mouse { dx: m.dx as i32, dy: m.dy as i32, flags: MOUSEEVENTF_MOVE })
    }
}

/// The inputs of an event, or why there are none.
pub open spec fn inputs_of(ev: InputEvent) -> Result<Seq<WinInput>, InjectError> {
    match ev {
        InputEvent::Key(k) => match crate::input::keycodes::vk_of_hid(k.hid) {
            Some(vk) => Ok(seq![WinInput::Key { vk, flags: key_flags(k.state) }]),
            None => Err(InjectError::UnknownKey { hid: k.hid }),
        },
        InputEvent::Mouse(m) => Ok(mouse_inputs(m)),
    }
}

/// The inputs to synthesize for an event, one after the other. A key that Windows has no virtual
/// key for is an error.
pub fn inject(ev: InputEvent) -> (r: Result<Vec<WinInput>, InjectError>)
    ensures
        match ev {
            InputEvent::Key(k) => match crate::input::keycodes::vk_of_hid(k.hid) {
                Some(vk) => r is Ok && r->Ok_0@ == seq![
                    WinInput::Key { vk, flags: key_flags(k.state) },
                ],
                None => r == Err::<Vec<WinInput>, InjectError>(
                    InjectError::UnknownKey { hid: k.hid },
                ),
            },
            InputEvent::Mouse(m) => r is Ok && r->Ok_0@ == mouse_inputs(m),
        },
        match inputs_of(ev) {
            Ok(inputs) => r is Ok && r->Ok_0@ == inputs,
            Err(e) => r == Err::<Vec<WinInput>, InjectError>(e),
        },
{
    match ev {
        InputEvent::Key(k) => {
            match hid_to_vk(k.hid) {
                Some(vk) => {
                    let mut flags: u32 = 0;
                    if let KeyState::Released = k.state {
                        flags = KEYEVENTF_KEYUP;
                    }
                    let inputs: Vec<WinInput> = vec![WinInput::Key { vk, flags }];
                    Ok(inputs)
                },
                None => Err(InjectError::UnknownKey { hid: k.hid }),
            }
        },
        InputEvent::Mouse(m) => {
            let mut inputs: Vec<WinInput> = Vec::new();
            if let (Some(button), Some(state)) = (m.button, m.state) {
                let (down, up): (u32, u32) = match button {
                    MouseButton::Left => (MOUSEEVENTF_LEFTDOWN, MOUSEEVENTF_LEFTUP),
                    MouseButton::Right => (MOUSEEVENTF_RIGHTDOWN, MOUSEEVENTF_RIGHTUP),
                    MouseButton::Middle => (MOUSEEVENTF_MIDDLEDOWN, MOUSEEVENTF_MIDDLEUP),
                };
                let flags: u32 = match state {
                    KeyState::Released => up,
                    KeyState::Pressed => down,
                };
                inputs.push(WinInput::Mouse { dx: 0, dy: 0, flags });
            }
            if m.dx != 0 || m.dy != 0 {
                inputs.push(
                    WinInput::Mouse { dx: m.dx as i32, dy: m.dy as i32, flags: MOUSEEVENTF_MOVE },
                );
            }
            Ok(inputs)
        },
    }
}

/// Windows is the side that drives the logical cursor: it is never told where the cursor is, and a
/// cursor state changes nothing.
pub fn handle_cursor_state(_on_mac: bool, _x: u32, _y: u32) -> (r: Result<(), InjectError>)
    ensures
        r == Ok::<(), InjectError>(()),
{
    Ok(())
}

} // verus!

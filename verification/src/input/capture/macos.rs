//! Capture on macOS.
//!
//! An event tap hands over every key and mouse event; each is turned into an event for the peer.
//! Modifier keys come as a change of the modifier flags, without a direction: comparing the flags
//! with the previous ones tells a press from a release.

use vstd::prelude::*;

use crate::input::event::{InputEvent, KeyEvent, KeyState, MouseButton, MouseEvent};
use crate::input::keycodes::mac::mac_keycode_to_hid;
use crate::numeric::{wrap_i16, wrap_u16};

verus! {

/// The type of a tapped event.
#[derive(Debug, Clone, Copy, PartialEq, Eq, Structural)]
pub enum EventKind {
    KeyDown,
    KeyUp,
    FlagsChanged,
    LeftMouseDown,
    LeftMouseUp,
    RightMouseDown,
    RightMouseUp,
    OtherMouseDown,
    OtherMouseUp,
    MouseMoved,
    LeftMouseDragged,
    RightMouseDragged,
    OtherMouseDragged,
    Other,
}

/// A tapped event: its type, and the fields that the types give a meaning to.
#[derive(Debug, Clone, Copy, PartialEq, Eq, Structural)]
pub struct TapEvent {
    pub kind: EventKind,
    pub keycode: i64,
    pub flags: u64,
    pub delta_x: i64,
    pub delta_y: i64,
}

/// What is remembered from one event to the next.
#[derive(Debug, Clone, Copy, PartialEq, Eq, Structural)]
pub struct MacCapture {
    /// The modifier flags of the last change of a modifier key.
    pub prev_flags: u64,
}

/// The flag of a modifier key. The two Shift keys share one.
pub open spec fn flag_bit(kc: u16) -> Option<u64> {
    if kc == 0x37 {
        Some(0x100000)
    } else if kc == 0x3A {
        Some(0x80000)
    } else if kc == 0x3B {
        Some(0x40000)
    } else if kc == 0x38 || kc == 0x3C {
        Some(0x20000)
    } else if kc == 0x39 {
        Some(0x10000)
    } else {
        None
    }
}

/// The flag of a modifier key: Command, Option, Control, either Shift, Caps Lock.
pub fn flag_bit_for(kc: u16) -> (r: Option<u64>)
    ensures
        r == flag_bit(kc),
{
    match kc {
        0x37 => Some(0x100000),
        0x3A => Some(0x80000),
        0x3B => Some(0x40000),
        0x38 | 0x3C => Some(0x20000),
        0x39 => Some(0x10000),
        _ => None,
    }
}

/// The key that an event is about.
pub open spec fn key_of(ev: TapEvent) -> u16 {
    (ev.keycode as int % 0x1_0000) as u16
}

/// The key event of a key, if it has a usage id.
pub open spec fn key_event(kc: u16, state: KeyState) -> Option<InputEvent> {
    match crate::input::keycodes::mac::hid_of_mac(kc) {
        Some(hid) => Some(InputEvent::Key(KeyEvent { hid, state })),
        None => None,
    }
}

/// The event of a button edge.
pub open spec fn button_event(button: MouseButton, state: KeyState) -> Option<InputEvent> {
    Some(
        InputEvent::Mouse(MouseEvent { dx: 0, dy: 0, button: Some(button), state: Some(state) }),
    )
}

/// The event of a movement, each coordinate cut to 16 bits, if there is any.
pub open spec fn move_event(delta_x: int, delta_y: int) -> Option<InputEvent> {
    let dx = crate::numeric::wrap_signed(delta_x, 0x1_0000);
    let dy = crate::numeric::wrap_signed(delta_y, 0x1_0000);
    if dx == 0 && dy == 0 {
        None
    } else {
        Some(
            InputEvent::Mouse(
                MouseEvent { dx: dx as i16, dy: dy as i16, button: None, state: None },
            ),
        )
    }
}

impl MacCapture {
    /// The key is a modifier whose changes are followed.
    pub open spec fn follows(kc: u16) -> bool {
        crate::input::keycodes::mac::hid_of_mac(kc) is Some && flag_bit(kc) is Some
    }

    /// What a change of the flags says of a modifier: pressed if its flag was set, released if it
    /// was cleared, nothing if it is as before.
    pub open spec fn flag_event(self, ev: TapEvent) -> Option<InputEvent> {
        let kc = key_of(ev);
        if !Self::follows(kc) {
            None
        } else {
            let bit = flag_bit(kc)->0;
            let was_down = self.prev_flags & bit != 0;
            let is_down = ev.flags & bit != 0;
            if is_down == was_down {
                None
            } else if is_down {
                key_event(kc, KeyState::Pressed)
            } else {
                key_event(kc, KeyState::Released)
            }
        }
    }

    /// The event that a tapped event becomes, if any.
    pub open spec fn translated(self, ev: TapEvent) -> Option<InputEvent> {
        match ev.kind {
            EventKind::KeyDown => key_event(key_of(ev), KeyState::Pressed),
            EventKind::KeyUp => key_event(key_of(ev), KeyState::Released),
            EventKind::FlagsChanged => self.flag_event(ev),
            EventKind::LeftMouseDown => button_event(MouseButton::Left, KeyState::Pressed),
            EventKind::LeftMouseUp => button_event(MouseButton::Left, KeyState::Released),
            EventKind::RightMouseDown => button_event(MouseButton::Right, KeyState::Pressed),
            EventKind::RightMouseUp => button_event(MouseButton::Right, KeyState::Released),
            EventKind::OtherMouseDown => button_event(MouseButton::Middle, KeyState::Pressed),
            EventKind::OtherMouseUp => button_event(MouseButton::Middle, KeyState::Released),
            EventKind::MouseMoved
            | EventKind::LeftMouseDragged
            | EventKind::RightMouseDragged
            | EventKind::OtherMouseDragged => move_event(ev.delta_x as int, ev.delta_y as int),
            EventKind::Other => None,
        }
    }

    /// The flags that are remembered after an event: those of a change of a modifier.
    pub open spec fn next(self, ev: TapEvent) -> MacCapture {
        if ev.kind is FlagsChanged && Self::follows(key_of(ev)) {
            MacCapture { prev_flags: ev.flags }
        } else {
            self
        }
    }

    /// Turns a tapped event into an event for the peer.
    pub fn translate(&mut self, ev: TapEvent) -> (r: Option<InputEvent>)
        ensures
            r == old(self).translated(ev),
            *final(self) == old(self).next(ev),
    {
        match ev.kind {
            EventKind::KeyDown | EventKind::KeyUp => {
                let kc: u16 = wrap_u16(ev.keycode);
                match mac_keycode_to_hid(kc) {
                    Some(hid) => {
                        let state = match ev.kind {
                            EventKind::KeyDown => KeyState::Pressed,
                            _ => KeyState::Released,
                        };
                        Some(InputEvent::Key(KeyEvent { hid, state }))
                    },
                    None => None,
                }
            },
            EventKind::FlagsChanged => {
                let kc: u16 = wrap_u16(ev.keycode);
                match (mac_keycode_to_hid(kc), flag_bit_for(kc)) {
                    (Some(hid), Some(bit)) => {
                        let was_down = self.prev_flags & bit != 0;
                        let is_down = ev.flags & bit != 0;
                        self.prev_flags = ev.flags;
                        if is_down != was_down {
                            let state = if is_down {
                                KeyState::Pressed
                            } else {
                                KeyState::Released
                            };
                            Some(InputEvent::Key(KeyEvent { hid, state }))
                        } else {
                            None
                        }
                    },
                    _ => None,
                }
            },
            EventKind::LeftMouseDown
            | EventKind::LeftMouseUp
            | EventKind::RightMouseDown
            | EventKind::RightMouseUp
            | EventKind::OtherMouseDown
            | EventKind::OtherMouseUp => {
                let button = match ev.kind {
                    EventKind::LeftMouseDown | EventKind::LeftMouseUp => MouseButton::Left,
                    EventKind::RightMouseDown | EventKind::RightMouseUp => MouseButton::Right,
                    _ => MouseButton::Middle,
                };
                let state = match ev.kind {
                    EventKind::LeftMouseDown
                    | EventKind::RightMouseDown
                    | EventKind::OtherMouseDown => KeyState::Pressed,
                    _ => KeyState::Released,
                };
                Some(
                    InputEvent::Mouse(
                        MouseEvent { dx: 0, dy: 0, button: Some(button), state: Some(state) },
                    ),
                )
            },
            EventKind::MouseMoved
            | EventKind::LeftMouseDragged
            | EventKind::RightMouseDragged
            | EventKind::OtherMouseDragged => {
                let dx: i16 = wrap_i16(ev.delta_x);
                let dy: i16 = wrap_i16(ev.delta_y);
                if dx != 0 || dy != 0 {
                    Some(InputEvent::Mouse(MouseEvent { dx, dy, button: None, state: None }))
                } else {
                    None
                }
            },
            EventKind::Other => None,
        }
    }
}

/// Starts to capture: no modifier is down.
pub fn start_capture() -> (r: MacCapture)
    ensures
        r.prev_flags == 0,
{
    MacCapture { prev_flags: 0 }
}

/// A modifier is pressed once and released once: a change that sets its flag is a press, the next
/// change of the same key that clears it is the release, and a change that leaves the flag as it
/// is says nothing.
pub proof fn modifier_press_is_released(c: MacCapture, down: TapEvent, up: TapEvent)
    requires
        down.kind is FlagsChanged,
        up.kind is FlagsChanged,
        key_of(up) == key_of(down),
        MacCapture::follows(key_of(down)),
        c.prev_flags & flag_bit(key_of(down))->0 == 0,
        down.flags & flag_bit(key_of(down))->0 != 0,
        up.flags & flag_bit(key_of(down))->0 == 0,
    ensures
        c.translated(down) == key_event(key_of(down), KeyState::Pressed),
        c.next(down).translated(down) is None,
        c.next(down).translated(up) == key_event(key_of(down), KeyState::Released),
        key_event(key_of(down), KeyState::Pressed) is Some,
{
}

} // verus!

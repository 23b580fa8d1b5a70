//! Injection on macOS.
//!
//! Keys and buttons are posted as events of the system, and each press is given once more to a
//! script, for systems that drop posted events. Movements are added up: they give the position at
//! which buttons are posted. In seamless mode the peer says where the cursor is.

use vstd::prelude::*;
use vstd::string::StringExecFns;

use super::InjectError;
use crate::binary64::{add_i16, printed};
use crate::input::event::{InputEvent, KeyState, MouseButton};
use crate::input::keycodes::mac::hid_to_mac_keycode;
use crate::text::{push_decimal, push_signed};

verus! {

/// The event type of a movement of the cursor.
pub const MOUSE_MOVED: u32 = 5;

/// The left button, which a movement names too.
pub const BUTTON_LEFT: u32 = 0;

/// A script for `System Events`.
#[derive(Debug, Clone, Copy, PartialEq, Eq, Structural)]
pub enum Script {
    KeyCode { keycode: u16 },
    ClickAt { x: i128, y: i128 },
}

/// One thing that the system is asked to do.
#[derive(Debug, Clone, Copy, PartialEq, Eq, Structural)]
pub enum MacAction {
    PostKey { keycode: u16, down: bool },
    PostMouse { kind: u32, x: i128, y: i128, button: u32 },
    Run(Script),
    ShowCursor,
    HideCursor,
}

impl Script {
    /// The text of the script.
    pub open spec fn source(self) -> Seq<char> {
        match self {
            Script::KeyCode { keycode } => "tell application \"System Events\" to key code "@
                + crate::text::decimal(keycode as nat),
            Script::ClickAt { x, y } => "tell application \"System Events\" to click at {"@
                + crate::text::signed_decimal(crate::binary64::printed_spec(x as int)) + ", "@
                + crate::text::signed_decimal(crate::binary64::printed_spec(y as int)) + "}"@,
        }
    }

    /// A click lies where a pointer can be.
    pub open spec fn well_formed(self) -> bool {
        self matches Script::ClickAt { x, y } ==> {
            &&& -crate::binary64::STUCK <= x <= crate::binary64::STUCK
            &&& -crate::binary64::STUCK <= y <= crate::binary64::STUCK
        }
    }

    /// The text of the script. The coordinates of a click are printed as binary64 numbers.
    pub fn text(&self) -> (r: String)
        requires
            self.well_formed(),
        ensures
            r@ == self.source(),
    {
        match self {
            Script::KeyCode { keycode } => {
                let mut s = String::from_str("tell application \"System Events\" to key code ");
                push_decimal(&mut s, *keycode as u128);
                s
            },
            Script::ClickAt { x, y } => {
                let mut s = String::from_str("tell application \"System Events\" to click at {");
                push_signed(&mut s, printed(*x));
                s.append(", ");
                push_signed(&mut s, printed(*y));
                s.append("}");
                s
            },
        }
    }
}

/// The event type and the button number of a button edge.
pub open spec fn button_codes(button: MouseButton, state: KeyState) -> (u32, u32) {
    match (button, state) {
        (MouseButton::Left, KeyState::Pressed) => (1, 0),
        (MouseButton::Left, KeyState::Released) => (2, 0),
        (MouseButton::Right, KeyState::Pressed) => (3, 1),
        (MouseButton::Right, KeyState::Released) => (4, 1),
        (MouseButton::Middle, KeyState::Pressed) => (25, 2),
        (MouseButton::Middle, KeyState::Released) => (26, 2),
    }
}

/// Where the cursor is held to be, and whether it is shown here.
#[derive(Debug, Clone, Copy, PartialEq, Eq, Structural)]
pub struct MacPointer {
    pub x: i128,
    pub y: i128,
    /// The logical cursor is on this screen (seamless mode).
    pub shown: bool,
}

impl MacPointer {
    /// The position lies where movements still count, or at the end of that range.
    pub open spec fn well_formed(self) -> bool {
        &&& -crate::binary64::STUCK <= self.x <= crate::binary64::STUCK
        &&& -crate::binary64::STUCK <= self.y <= crate::binary64::STUCK
    }

    /// The cursor at the origin, not shown.
    pub fn new() -> (r: MacPointer)
        ensures
            r == (MacPointer { x: 0, y: 0, shown: false }),
            r.well_formed(),
    {
        MacPointer { x: 0, y: 0, shown: false }
    }

    /// What is done for an event.
    pub open spec fn actions(self, ev: InputEvent) -> Result<Seq<MacAction>, InjectError> {
        match ev {
            InputEvent::Key(k) => match crate::input::keycodes::mac::mac_of_hid(k.hid) {
                Some(keycode) => Ok(
                    match k.state {
                        KeyState::Pressed => seq![
                            MacAction::PostKey { keycode, down: true },
                            MacAction::Run(Script::KeyCode { keycode }),
                        ],
                        KeyState::Released => seq![MacAction::PostKey { keycode, down: false }],
                    },
                ),
                None => Err(InjectError::UnknownKey { hid: k.hid }),
            },
            InputEvent::Mouse(m) => Ok(
                match (m.button, m.state) {
                    (Some(button), Some(state)) => {
                        let (kind, number) = button_codes(button, state);
                        let post = MacAction::PostMouse {
                            kind,
                            x: self.x,
                            y: self.y,
                            button: number,
                        };
                        match state {
                            KeyState::Pressed => seq![
                                post,
                                MacAction::Run(Script::ClickAt { x: self.x, y: self.y }),
                            ],
                            KeyState::Released => seq![post],
                        }
                    },
                    _ => Seq::empty(),
                },
            ),
        }
    }

    /// Where the cursor is after an event: moved along, in the arithmetic of binary64.
    pub open spec fn moved(self, ev: InputEvent) -> MacPointer {
        match ev {
            InputEvent::Key(_) => self,
            InputEvent::Mouse(m) => if m.dx == 0 && m.dy == 0 {
                self
            } else {
                MacPointer {
                    x: crate::binary64::sum_spec(self.x as int, m.dx as int) as i128,
                    y: crate::binary64::sum_spec(self.y as int, m.dy as int) as i128,
                    ..self
                }
            },
        }
    }

    /// Where the cursor is once the peer has said so.
    pub open spec fn placed(self, on_mac: bool, x: u32, y: u32) -> MacPointer {
        if on_mac {
            MacPointer { x: x as i128, y: y as i128, shown: true }
        } else {
            MacPointer { shown: false, ..self }
        }
    }

    /// Where the cursor is after a run of events.
    pub open spec fn after(self, events: Seq<InputEvent>) -> MacPointer
        decreases events.len(),
    {
        if events.len() == 0 {
            self
        } else {
            self.after(events.drop_last()).moved(events.last())
        }
    }
}

/// What to do for an event, in order. A key that macOS has no key code for is an error.
pub fn inject_event(pointer: &mut MacPointer, ev: InputEvent) -> (r: Result<
    Vec<MacAction>,
    InjectError,
>)
    requires
        old(pointer).well_formed(),
    ensures
        final(pointer).well_formed(),
        *final(pointer) == old(pointer).moved(ev),
        match old(pointer).actions(ev) {
            Ok(actions) => r is Ok && r->Ok_0@ == actions,
            Err(e) => r == Err::<Vec<MacAction>, InjectError>(e),
        },
{
    match ev {
        InputEvent::Key(k) => {
            match hid_to_mac_keycode(k.hid) {
                Some(keycode) => {
                    let down = match k.state {
                        KeyState::Pressed => true,
                        KeyState::Released => false,
                    };
                    let mut actions: Vec<MacAction> = Vec::new();
                    actions.push(MacAction::PostKey { keycode, down });
                    if down {
                        actions.push(MacAction::Run(Script::KeyCode { keycode }));
                    }
                    Ok(actions)
                },
                None => Err(InjectError::UnknownKey { hid: k.hid }),
            }
        },
        InputEvent::Mouse(m) => {
            let mut actions: Vec<MacAction> = Vec::new();
            if let (Some(button), Some(state)) = (m.button, m.state) {
                let (kind, number): (u32, u32) = match (button, state) {
                    (MouseButton::Left, KeyState::Pressed) => (1, 0),
                    (MouseButton::Left, KeyState::Released) => (2, 0),
                    (MouseButton::Right, KeyState::Pressed) => (3, 1),
                    (MouseButton::Right, KeyState::Released) => (4, 1),
                    (MouseButton::Middle, KeyState::Pressed) => (25, 2),
                    (MouseButton::Middle, KeyState::Released) => (26, 2),
                };
                actions.push(
                    MacAction::PostMouse { kind, x: pointer.x, y: pointer.y, button: number },
                );
                if let KeyState::Pressed = state {
                    actions.push(MacAction::Run(Script::ClickAt { x: pointer.x, y: pointer.y }));
                }
            }
            if m.dx != 0 || m.dy != 0 {
                pointer.x = add_i16(pointer.x, m.dx);
                pointer.y = add_i16(pointer.y, m.dy);
            }
            Ok(actions)
        },
    }
}

/// What is done for a cursor state.
pub open spec fn placing(on_mac: bool, x: u32, y: u32) -> Seq<MacAction> {
    if on_mac {
        seq![
            MacAction::PostMouse {
                kind: MOUSE_MOVED,
                x: x as i128,
                y: y as i128,
                button: BUTTON_LEFT,
            },
            MacAction::ShowCursor,
        ]
    } else {
        seq![MacAction::HideCursor]
    }
}

/// Takes the place of the logical cursor. On this screen it is moved to `(x, y)`, which is
/// where buttons are posted from then on, and shown; elsewhere it is hidden.
///
/// It is moved by a posted movement, as keys and buttons are posted: warping it needs a further
/// permission, without which it fails silently.
pub fn handle_cursor_state(pointer: &mut MacPointer, on_mac: bool, x: u32, y: u32) -> (r: Vec<
    MacAction,
>)
    requires
        old(pointer).well_formed(),
    ensures
        final(pointer).well_formed(),
        *final(pointer) == old(pointer).placed(on_mac, x, y),
        r@ == if on_mac {
            seq![
                MacAction::PostMouse {
                    kind: MOUSE_MOVED,
                    x: x as i128,
                    y: y as i128,
                    button: BUTTON_LEFT,
                },
                MacAction::ShowCursor,
            ]
        } else {
            seq![MacAction::HideCursor]
        },
        r@ == placing(on_mac, x, y),
{
    pointer.shown = on_mac;
    let mut actions: Vec<MacAction> = Vec::new();
    if on_mac {
        pointer.x = x as i128;
        pointer.y = y as i128;
        actions.push(
            MacAction::PostMouse {
                kind: MOUSE_MOVED,
                x: pointer.x,
                y: pointer.y,
                button: BUTTON_LEFT,
            },
        );
        actions.push(MacAction::ShowCursor);
    } else {
        actions.push(MacAction::HideCursor);
    }
    actions
}

/// The horizontal and vertical movement of an event.
pub open spec fn movement(ev: InputEvent) -> (int, int) {
    match ev {
        InputEvent::Key(_) => (0, 0),
        InputEvent::Mouse(m) => (m.dx as int, m.dy as int),
    }
}

/// The sum of the movements of a run of events.
pub open spec fn total(events: Seq<InputEvent>) -> (int, int)
    decreases events.len(),
{
    if events.len() == 0 {
        (0, 0)
    } else {
        let (dx, dy) = total(events.drop_last());
        let (ex, ey) = movement(events.last());
        (dx + ex, dy + ey)
    }
}

/// Both coordinates lie within 2^53 of the origin, where every whole number is exact.
pub open spec fn near(x: int, y: int) -> bool {
    &&& -0x20_0000_0000_0000 <= x <= 0x20_0000_0000_0000
    &&& -0x20_0000_0000_0000 <= y <= 0x20_0000_0000_0000
}

/// Relative movements add up to an absolute position: after a run of events the cursor stands
/// where it started plus the sum of all movements, as long as it stays within 2^53 of the origin.
pub proof fn movements_add_up(p: MacPointer, events: Seq<InputEvent>)
    requires
        forall|i: int|
            0 <= i <= events.len() ==> near(
                p.x + (#[trigger] total(events.take(i))).0,
                p.y + total(events.take(i)).1,
            ),
    ensures
        p.after(events).x == p.x + total(events).0,
        p.after(events).y == p.y + total(events).1,
    decreases events.len(),
{
    if events.len() > 0 {
        let init = events.drop_last();
        assert forall|i: int| 0 <= i <= init.len() implies near(
            p.x + (#[trigger] total(init.take(i))).0,
            p.y + total(init.take(i)).1,
        ) by {
            assert(init.take(i) =~= events.take(i));
        }
        movements_add_up(p, init);
        assert(events.take(events.len() as int) =~= events);
        let (x, y) = (p.x + total(events).0, p.y + total(events).1);
        assert(near(x, y));
        crate::binary64::small_sums_are_exact(x);
        crate::binary64::small_sums_are_exact(y);
    }
}

/// Buttons are posted where the peer last put the cursor.
pub proof fn buttons_are_posted_at_the_cursor(
    p: MacPointer,
    x: u32,
    y: u32,
    button: MouseButton,
    state: KeyState,
)
    ensures
        ({
            let ev = InputEvent::Mouse(
                crate::input::event::MouseEvent {
                    dx: 0,
                    dy: 0,
                    button: Some(button),
                    state: Some(state),
                },
            );
            let actions = p.placed(true, x, y).actions(ev);
            &&& actions is Ok
            &&& actions->Ok_0[0] == MacAction::PostMouse {
                kind: button_codes(button, state).0,
                x: x as i128,
                y: y as i128,
                button: button_codes(button, state).1,
            }
        }),
{
}

} // verus!

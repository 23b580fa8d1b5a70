//! Capture on Windows.
//!
//! Keys and buttons are polled, and an event is sent for each one that changed. The mouse is
//! followed in one of two ways: normally the difference between two cursor positions is sent; in
//! seamless mode the raw movements of the mouse drive a logical cursor over both screens.

use vstd::prelude::*;

use super::seamless::{CursorCommand, Seamless};
use crate::input::event::{InputEvent, KeyEvent, KeyState, MouseButton, MouseEvent};
use crate::input::keycodes::vk_to_hid;
use crate::input::{CaptureMsg, CaptureOptions};
use crate::numeric::wrap_i16;

verus! {

/// The kind of device that is a mouse.
pub const RIM_TYPEMOUSE: u32 = 0;

/// One record of the raw input buffer.
#[derive(Debug, Clone, Copy, PartialEq, Eq, Structural)]
pub struct RawRecord {
    /// The kind of device.
    pub dw_type: u32,
    /// The mouse state flags; the lowest bit marks absolute coordinates.
    pub flags: u16,
    pub last_x: i32,
    pub last_y: i32,
}

impl RawRecord {
    /// The record is a relative movement of the mouse.
    pub open spec fn is_movement(self) -> bool {
        self.dw_type == RIM_TYPEMOUSE && self.flags % 2 == 0
    }
}

/// The sum of the movements among the first `n` records.
pub open spec fn movement(records: Seq<RawRecord>, n: nat) -> (int, int)
    decreases n,
{
    if n == 0 {
        (0, 0)
    } else {
        let (dx, dy) = movement(records, (n - 1) as nat);
        let r = records[n - 1];
        if r.is_movement() {
            (dx + r.last_x, dy + r.last_y)
        } else {
            (dx, dy)
        }
    }
}

/// The movement of the mouse since the last frame: the sum of the relative movements in the raw
/// input buffer.
pub fn drain_raw_mouse(records: &[RawRecord]) -> (r: (i64, i64))
    requires
        records@.len() <= u32::MAX,
    ensures
        (r.0 as int, r.1 as int) == movement(records@, records@.len()),
{
    let mut dx: i64 = 0;
    let mut dy: i64 = 0;
    let mut i: usize = 0;
    while i < records.len()
        invariant
            i <= records@.len() <= u32::MAX,
            (dx as int, dy as int) == movement(records@, i as nat),
            -0x8000_0000 * i <= dx <= 0x8000_0000 * i,
            -0x8000_0000 * i <= dy <= 0x8000_0000 * i,
        decreases records@.len() - i,
    {
        let r = records[i];
        if r.dw_type == RIM_TYPEMOUSE && r.flags % 2 == 0 {
            dx = dx + r.last_x as i64;
            dy = dy + r.last_y as i64;
        }
        i += 1;
    }
    (dx, dy)
}

/// The pause between two polls, in milliseconds.
pub const POLL_MS: u64 = 5;

/// The number of virtual keys that are polled.
pub const KEYS: usize = 256;

/// What is remembered from one poll to the next.
#[derive(Debug)]
pub struct Capture {
    pub opts: CaptureOptions,
    /// Which virtual keys were down.
    pub prev_keys: Vec<bool>,
    /// Whether the left, right and middle buttons were down.
    pub prev_buttons: Vec<bool>,
    /// Where the cursor was last seen (not in seamless mode).
    pub last_pos: Option<(i32, i32)>,
    pub seamless: Seamless,
}

/// What is read from the devices in one round.
#[derive(Debug)]
pub struct Poll {
    /// The state of each virtual key.
    pub keys: Vec<i16>,
    /// The states of the left, right and middle buttons.
    pub buttons: Vec<i16>,
    /// The position of the cursor, where it could be read.
    pub cursor: Option<(i32, i32)>,
    /// The raw input that has gathered (in seamless mode).
    pub raw: Vec<RawRecord>,
    /// A monotonic clock.
    pub now_ns: u64,
}

/// What a round of the loop comes to, in the order in which it is done.
#[derive(Debug)]
pub struct Round {
    /// The events to send.
    pub events: Vec<CaptureMsg>,
    /// What to do to the local cursor (in seamless mode).
    pub commands: Vec<CursorCommand>,
    /// The cursor state to send (in seamless mode).
    pub cursor_state: Option<CaptureMsg>,
    /// The next round follows without a pause.
    pub again: bool,
}

/// The key is down: the sign bit of its asynchronous state is set.
pub open spec fn is_down(state: i16) -> bool {
    state < 0
}

/// The transition that a key made when it came to be `down`.
pub open spec fn edge(down: bool) -> KeyState {
    if down {
        KeyState::Pressed
    } else {
        KeyState::Released
    }
}

/// The button that is polled at index `i`.
pub open spec fn button_at(i: int) -> MouseButton {
    if i == 0 {
        MouseButton::Left
    } else if i == 1 {
        MouseButton::Right
    } else {
        MouseButton::Middle
    }
}

/// The events of those among the first `n` virtual keys that changed, in order of their codes.
/// Keys without a usage id give none.
pub open spec fn key_events(prev: Seq<bool>, states: Seq<i16>, n: nat) -> Seq<CaptureMsg>
    decreases n,
{
    if n == 0 {
        Seq::empty()
    } else {
        let vk = n - 1;
        let before = key_events(prev, states, vk as nat);
        let hid = crate::input::keycodes::hid_of_vk(vk as u16);
        if is_down(states[vk]) != prev[vk] && hid is Some {
            before.push(
                CaptureMsg::Input(
                    InputEvent::Key(KeyEvent { hid: hid->0, state: edge(is_down(states[vk])) }),
                ),
            )
        } else {
            before
        }
    }
}

/// The events of those among the first `n` buttons that changed, in order.
pub open spec fn button_events(prev: Seq<bool>, states: Seq<i16>, n: nat) -> Seq<CaptureMsg>
    decreases n,
{
    if n == 0 {
        Seq::empty()
    } else {
        let i = n - 1;
        let before = button_events(prev, states, i as nat);
        if is_down(states[i]) != prev[i] {
            before.push(
                CaptureMsg::Input(
                    InputEvent::Mouse(
                        MouseEvent {
                            dx: 0,
                            dy: 0,
                            button: Some(button_at(i)),
                            state: Some(edge(is_down(states[i]))),
                        },
                    ),
                ),
            )
        } else {
            before
        }
    }
}

/// Which of the polled keys are down.
pub open spec fn downs(states: Seq<i16>) -> Seq<bool> {
    states.map_values(|s: i16| is_down(s))
}

/// The event of a movement of the cursor from `from` to `to`, each coordinate cut to 16 bits, if
/// there is any.
pub open spec fn move_event(from: (i32, i32), to: (i32, i32)) -> Option<CaptureMsg> {
    let dx = crate::numeric::wrap_signed(to.0 - from.0, 0x1_0000);
    let dy = crate::numeric::wrap_signed(to.1 - from.1, 0x1_0000);
    if dx == 0 && dy == 0 {
        None
    } else {
        Some(
            CaptureMsg::Input(
                InputEvent::Mouse(
                    MouseEvent { dx: dx as i16, dy: dy as i16, button: None, state: None },
                ),
            ),
        )
    }
}

/// What a `Capture` amounts to.
#[verifier::ext_equal]
pub struct CaptureState {
    pub opts: CaptureOptions,
    pub prev_keys: Seq<bool>,
    pub prev_buttons: Seq<bool>,
    pub last_pos: Option<(i32, i32)>,
    pub seamless: Seamless,
}

/// What a `Poll` amounts to.
pub struct Reading {
    pub keys: Seq<i16>,
    pub buttons: Seq<i16>,
    pub cursor: Option<(i32, i32)>,
    pub raw: Seq<RawRecord>,
    pub now_ns: u64,
}

impl View for Capture {
    type V = CaptureState;

    open spec fn view(&self) -> CaptureState {
        CaptureState {
            opts: self.opts,
            prev_keys: self.prev_keys@,
            prev_buttons: self.prev_buttons@,
            last_pos: self.last_pos,
            seamless: self.seamless,
        }
    }
}

impl View for Poll {
    type V = Reading;

    open spec fn view(&self) -> Reading {
        Reading {
            keys: self.keys@,
            buttons: self.buttons@,
            cursor: self.cursor,
            raw: self.raw@,
            now_ns: self.now_ns,
        }
    }
}

impl Reading {
    /// There is a state of every key and button, and no more records than the system reports.
    pub open spec fn well_formed(self) -> bool {
        &&& self.keys.len() == KEYS
        &&& self.buttons.len() == 3
        &&& self.raw.len() <= u32::MAX
    }

    /// The position of the cursor, the origin where it could not be read.
    pub open spec fn place(self) -> (i32, i32) {
        match self.cursor {
            Some(p) => p,
            None => (0, 0),
        }
    }

    /// The movement of the mouse.
    pub open spec fn moved(self) -> (i64, i64) {
        let (dx, dy) = movement(self.raw, self.raw.len());
        (dx as i64, dy as i64)
    }
}

impl CaptureState {
    /// No key or button is down, and the cursor is here and has not been seen.
    pub open spec fn initial(opts: CaptureOptions, now_ns: u64) -> CaptureState {
        CaptureState {
            opts,
            prev_keys: Seq::new(KEYS as nat, |i: int| false),
            prev_buttons: Seq::new(3, |i: int| false),
            last_pos: None,
            seamless: Seamless {
                on_mac: false,
                mac_x: 0,
                mac_y: 0,
                pin_y: 0,
                last_sent: None,
                last_stream_ns: now_ns,
            },
        }
    }

    /// There is a memory of every key and button.
    pub open spec fn well_formed(self) -> bool {
        &&& self.prev_keys.len() == KEYS
        &&& self.prev_buttons.len() == 3
    }

    /// Keys and buttons are forwarded: always, but for seamless mode with the cursor here.
    pub open spec fn forwards(self) -> bool {
        !self.opts.m4_mode || self.seamless.on_mac
    }

    /// The events of keys and buttons that a round forwards.
    pub open spec fn edges(self, poll: Reading) -> Seq<CaptureMsg> {
        if self.forwards() {
            key_events(self.prev_keys, poll.keys, KEYS as nat) + button_events(
                self.prev_buttons,
                poll.buttons,
                3,
            )
        } else {
            Seq::empty()
        }
    }

    /// The event of the cursor's movement since it was last seen (not in seamless mode).
    pub open spec fn move_since(self, cursor: Option<(i32, i32)>) -> Option<CaptureMsg> {
        match (self.last_pos, cursor) {
            (Some(from), Some(to)) => move_event(from, to),
            _ => None,
        }
    }

    /// The events that a round sends: keys, buttons, and outside seamless mode the movement.
    pub open spec fn events(self, poll: Reading) -> Seq<CaptureMsg> {
        match self.move_since(poll.cursor) {
            Some(msg) if !self.opts.m4_mode => self.edges(poll).push(msg),
            _ => self.edges(poll),
        }
    }

    /// What a round does to the local cursor (in seamless mode).
    pub open spec fn commands(self, poll: Reading) -> Seq<CursorCommand> {
        if self.opts.m4_mode {
            self.seamless.commands(self.opts, poll.place(), poll.moved())
        } else {
            Seq::empty()
        }
    }

    /// The cursor state that a round sends (in seamless mode).
    pub open spec fn cursor_state(self, poll: Reading) -> Option<CaptureMsg> {
        if self.opts.m4_mode {
            self.seamless.message(self.opts, poll.place(), poll.moved(), poll.now_ns)
        } else {
            None
        }
    }

    /// Everything that a round sends, in order.
    pub open spec fn sent(self, poll: Reading) -> Seq<CaptureMsg> {
        match self.cursor_state(poll) {
            Some(msg) => self.events(poll).push(msg),
            None => self.events(poll),
        }
    }

    /// What is remembered after a round.
    pub open spec fn next(self, poll: Reading) -> CaptureState {
        CaptureState {
            opts: self.opts,
            prev_keys: downs(poll.keys),
            prev_buttons: downs(poll.buttons),
            last_pos: if self.opts.m4_mode || poll.cursor is None {
                self.last_pos
            } else {
                poll.cursor
            },
            seamless: if self.opts.m4_mode {
                self.seamless.next(self.opts, poll.place(), poll.moved(), poll.now_ns)
            } else {
                self.seamless
            },
        }
    }

    /// The cursor's way since it was last seen fits in 32 bits.
    pub open spec fn move_fits(self, cursor: Option<(i32, i32)>) -> bool {
        match (self.last_pos, cursor) {
            (Some(a), Some(b)) => i32::MIN <= b.0 - a.0 <= i32::MAX && i32::MIN <= b.1 - a.1
                <= i32::MAX,
            _ => true,
        }
    }

    /// The arithmetic of a round stays within the machine's integers.
    pub open spec fn round_fits(self, poll: Reading) -> bool {
        if self.opts.m4_mode {
            self.seamless.frame_fits(self.opts, poll.place(), poll.moved())
        } else {
            self.move_fits(poll.cursor)
        }
    }
}

impl Capture {
    /// Keeps the size of the peer's screen.
    pub fn set_peer_geom(&mut self, mac_w: u32, mac_h: u32)
        ensures
            final(self)@ == (CaptureState {
                opts: CaptureOptions { mac_w, mac_h, ..old(self)@.opts },
                ..old(self)@
            }),
    {
        self.opts.mac_w = mac_w;
        self.opts.mac_h = mac_h;
    }

    /// Takes the states of the virtual keys and gives the events to forward.
    pub fn poll_keys(&mut self, states: &[i16]) -> (r: Vec<CaptureMsg>)
        requires
            old(self)@.well_formed(),
            states@.len() == KEYS,
        ensures
            final(self)@ == (CaptureState { prev_keys: downs(states@), ..old(self)@ }),
            r@ == if old(self)@.forwards() {
                key_events(old(self)@.prev_keys, states@, KEYS as nat)
            } else {
                Seq::empty()
            },
    {
        let forwards = !(self.opts.m4_mode && !self.seamless.on_mac);
        let mut out: Vec<CaptureMsg> = Vec::new();
        let mut vk: usize = 0;
        let ghost prev = self.prev_keys@;
        while vk < KEYS
            invariant
                vk <= KEYS,
                states@.len() == KEYS,
                prev.len() == KEYS,
                self.prev_keys@.len() == KEYS,
                prev == old(self).prev_keys@,
                forwards == old(self)@.forwards(),
                forall|i: int| 0 <= i < vk ==> self.prev_keys@[i] == is_down(states@[i]),
                forall|i: int| vk <= i < KEYS ==> self.prev_keys@[i] == prev[i],
                self.prev_buttons == old(self).prev_buttons,
                self.opts == old(self).opts,
                self.last_pos == old(self).last_pos,
                self.seamless == old(self).seamless,
                out@ == if forwards {
                    key_events(prev, states@, vk as nat)
                } else {
                    Seq::empty()
                },
            decreases KEYS - vk,
        {
            let down = states[vk] < 0;
            if down != self.prev_keys[vk] {
                self.prev_keys.set(vk, down);
                if let Some(hid) = vk_to_hid(vk as u16) {
                    let state = if down {
                        KeyState::Pressed
                    } else {
                        KeyState::Released
                    };
                    if forwards {
                        out.push(CaptureMsg::Input(InputEvent::Key(KeyEvent { hid, state })));
                    }
                }
            }
            vk += 1;
        }
        assert(self.prev_keys@ =~= downs(states@));
        out
    }

    /// Takes the states of the left, right and middle buttons and gives the events to forward.
    pub fn poll_buttons(&mut self, states: &[i16]) -> (r: Vec<CaptureMsg>)
        requires
            old(self)@.well_formed(),
            states@.len() == 3,
        ensures
            final(self)@ == (CaptureState { prev_buttons: downs(states@), ..old(self)@ }),
            r@ == if old(self)@.forwards() {
                button_events(old(self)@.prev_buttons, states@, 3)
            } else {
                Seq::empty()
            },
    {
        let forwards = !(self.opts.m4_mode && !self.seamless.on_mac);
        let mut out: Vec<CaptureMsg> = Vec::new();
        let mut i: usize = 0;
        let ghost prev = self.prev_buttons@;
        while i < 3
            invariant
                i <= 3,
                states@.len() == 3,
                prev.len() == 3,
                self.prev_buttons@.len() == 3,
                prev == old(self).prev_buttons@,
                forwards == old(self)@.forwards(),
                forall|j: int| 0 <= j < i ==> self.prev_buttons@[j] == is_down(states@[j]),
                forall|j: int| i <= j < 3 ==> self.prev_buttons@[j] == prev[j],
                self.prev_keys == old(self).prev_keys,
                self.opts == old(self).opts,
                self.last_pos == old(self).last_pos,
                self.seamless == old(self).seamless,
                out@ == if forwards {
                    button_events(prev, states@, i as nat)
                } else {
                    Seq::empty()
                },
            decreases 3 - i,
        {
            let down = states[i] < 0;
            if down != self.prev_buttons[i] {
                self.prev_buttons.set(i, down);
                let button = match i {
                    0 => MouseButton::Left,
                    1 => MouseButton::Right,
                    _ => MouseButton::Middle,
                };
                let state = if down {
                    KeyState::Pressed
                } else {
                    KeyState::Released
                };
                if forwards {
                    out.push(
                        CaptureMsg::Input(
                            InputEvent::Mouse(
                                MouseEvent {
                                    dx: 0,
                                    dy: 0,
                                    button: Some(button),
                                    state: Some(state),
                                },
                            ),
                        ),
                    );
                }
            }
            i += 1;
        }
        assert(self.prev_buttons@ =~= downs(states@));
        out
    }

    /// Tests whether the cursor's way since it was last seen fits in 32 bits.
    pub fn can_move(&self, cursor: Option<(i32, i32)>) -> (r: bool)
        ensures
            r == self@.move_fits(cursor),
    {
        if let (Some(a), Some(b)) = (self.last_pos, cursor) {
            let dx: i64 = b.0 as i64 - a.0 as i64;
            let dy: i64 = b.1 as i64 - a.1 as i64;
            -0x8000_0000 <= dx && dx <= 0x7fff_ffff && -0x8000_0000 <= dy && dy <= 0x7fff_ffff
        } else {
            true
        }
    }

    /// Takes the position of the cursor, where it could be read, and gives the movement since it
    /// was last seen (not in seamless mode).
    pub fn poll_move(&mut self, cursor: Option<(i32, i32)>) -> (r: Option<CaptureMsg>)
        requires
            old(self)@.move_fits(cursor),
        ensures
            final(self)@ == (CaptureState {
                last_pos: if cursor is Some {
                    cursor
                } else {
                    old(self)@.last_pos
                },
                ..old(self)@
            }),
            r == old(self)@.move_since(cursor),
    {
        let mut msg: Option<CaptureMsg> = None;
        if let Some(p) = cursor {
            if let Some(last) = self.last_pos {
                let dx: i16 = wrap_i16((p.0 - last.0) as i64);
                let dy: i16 = wrap_i16((p.1 - last.1) as i64);
                if dx != 0 || dy != 0 {
                    msg =
                    Some(
                        CaptureMsg::Input(
                            InputEvent::Mouse(MouseEvent { dx, dy, button: None, state: None }),
                        ),
                    );
                }
            }
            self.last_pos = Some(p);
        }
        msg
    }

    /// Tests whether a round with these readings can be taken.
    pub fn can_round(&self, poll: &Poll) -> (r: bool)
        requires
            poll@.well_formed(),
        ensures
            r == self@.round_fits(poll@),
    {
        if self.opts.m4_mode {
            let place: (i32, i32) = match poll.cursor {
                Some(p) => p,
                None => (0, 0),
            };
            self.seamless.can_step(self.opts, place, drain_raw_mouse(poll.raw.as_slice()))
        } else {
            self.can_move(poll.cursor)
        }
    }

    /// One round of the capture loop: keys, then buttons, then the mouse. In seamless mode the
    /// mouse drives the logical cursor; else its movement is an event like the others.
    pub fn round(&mut self, poll: &Poll) -> (r: Round)
        requires
            old(self)@.well_formed(),
            poll@.well_formed(),
            old(self)@.round_fits(poll@),
        ensures
            final(self)@ == old(self)@.next(poll@),
            final(self)@.well_formed(),
            r.events@ == old(self)@.events(poll@),
            r.commands@ == old(self)@.commands(poll@),
            r.cursor_state == old(self)@.cursor_state(poll@),
            r.again == (old(self)@.seamless.on_mac != final(self)@.seamless.on_mac),
    {
        let mut events: Vec<CaptureMsg> = self.poll_keys(poll.keys.as_slice());
        let mut buttons: Vec<CaptureMsg> = self.poll_buttons(poll.buttons.as_slice());
        events.append(&mut buttons);
        assert(events@ =~= old(self)@.edges(poll@));
        if self.opts.m4_mode {
            let raw: (i64, i64) = drain_raw_mouse(poll.raw.as_slice());
            let place: (i32, i32) = match poll.cursor {
                Some(p) => p,
                None => (0, 0),
            };
            let opts = self.opts;
            let frame = self.seamless.step(opts, place, raw, poll.now_ns);
            Round {
                events,
                commands: frame.commands,
                cursor_state: frame.msg,
                again: frame.again,
            }
        } else {
            if let Some(msg) = self.poll_move(poll.cursor) {
                events.push(msg);
            }
            Round { events, commands: Vec::new(), cursor_state: None, again: false }
        }
    }
}

/// Starts to capture: no key or button is down, the cursor is here and has not been seen.
pub fn start_capture(opts: CaptureOptions, now_ns: u64) -> (r: Capture)
    ensures
        r@ == CaptureState::initial(opts, now_ns),
        r@.well_formed(),
{
    let prev_keys: Vec<bool> = vec![false; KEYS];
    let prev_buttons: Vec<bool> = vec![false; 3];
    assert(prev_keys@ =~= Seq::new(KEYS as nat, |i: int| false));
    assert(prev_buttons@ =~= Seq::new(3, |i: int| false));
    Capture {
        opts,
        prev_keys,
        prev_buttons,
        last_pos: None,
        seamless: Seamless {
            on_mac: false,
            mac_x: 0,
            mac_y: 0,
            pin_y: 0,
            last_sent: None,
            last_stream_ns: now_ns,
        },
    }
}

/// A key or button that stays as it is gives no further event.
pub proof fn steady_states_are_silent(states: Seq<i16>, n: nat)
    requires
        n <= states.len(),
    ensures
        key_events(downs(states), states, n) == Seq::<CaptureMsg>::empty(),
        button_events(downs(states), states, n) == Seq::<CaptureMsg>::empty(),
    decreases n,
{
    if n > 0 {
        steady_states_are_silent(states, (n - 1) as nat);
    }
}

/// The message is the event of virtual key `vk`, which changed.
pub open spec fn reports(msg: CaptureMsg, prev: Seq<bool>, states: Seq<i16>, vk: int) -> bool {
    &&& is_down(states[vk]) != prev[vk]
    &&& crate::input::keycodes::hid_of_vk(vk as u16) matches Some(hid)
    &&& msg == CaptureMsg::Input(
        InputEvent::Key(KeyEvent { hid, state: edge(is_down(states[vk])) }),
    )
}

/// A poll reports only keys that changed: an event is that of one of them, which has a usage id.
pub proof fn events_report_changed_keys(prev: Seq<bool>, states: Seq<i16>, n: nat, i: int) -> (vk: int)
    requires
        0 <= i < key_events(prev, states, n).len(),
    ensures
        0 <= vk < n,
        reports(key_events(prev, states, n)[i], prev, states, vk),
    decreases n,
{
    let m = (n - 1) as nat;
    if i < key_events(prev, states, m).len() {
        events_report_changed_keys(prev, states, m, i)
    } else {
        m as int
    }
}

/// A poll reports every key that changed: one that has a usage id has its event.
pub proof fn changed_keys_are_reported(prev: Seq<bool>, states: Seq<i16>, n: nat, vk: int) -> (i: int)
    requires
        0 <= vk < n,
        is_down(states[vk]) != prev[vk],
        crate::input::keycodes::hid_of_vk(vk as u16) is Some,
    ensures
        0 <= i < key_events(prev, states, n).len(),
        reports(key_events(prev, states, n)[i], prev, states, vk),
    decreases n,
{
    let m = (n - 1) as nat;
    if vk < m {
        changed_keys_are_reported(prev, states, m, vk)
    } else {
        key_events(prev, states, m).len() as int
    }
}

/// The key event `b` undoes the key event `a`.
pub open spec fn undoes(b: CaptureMsg, a: CaptureMsg) -> bool {
    match (a, b) {
        (CaptureMsg::Input(InputEvent::Key(x)), CaptureMsg::Input(InputEvent::Key(y))) => x.hid
            == y.hid && x.state != y.state,
        _ => false,
    }
}

/// Every press is followed by its release: when the keys return to how they were, the events of
/// the second poll undo those of the first one by one.
pub proof fn returning_keys_undo_their_events(
    prev: Seq<bool>,
    there: Seq<i16>,
    back: Seq<i16>,
    n: nat,
)
    requires
        n <= prev.len() == there.len() == back.len(),
        downs(back) == prev,
    ensures
        ({
            let first = key_events(prev, there, n);
            let second = key_events(downs(there), back, n);
            &&& first.len() == second.len()
            &&& forall|i: int| 0 <= i < first.len() ==> undoes(#[trigger] second[i], first[i])
        }),
    decreases n,
{
    if n > 0 {
        returning_keys_undo_their_events(prev, there, back, (n - 1) as nat);
        assert(downs(back)[n - 1] == is_down(back[n - 1]));
        assert(downs(there)[n - 1] == is_down(there[n - 1]));
    }
}

/// A cursor that moved by less than 2^15 either way is forwarded with exactly that movement.
pub proof fn movement_is_forwarded_exactly(from: (i32, i32), to: (i32, i32))
    requires
        from != to,
        -0x8000 <= to.0 - from.0 < 0x8000,
        -0x8000 <= to.1 - from.1 < 0x8000,
    ensures
        move_event(from, to) == Some(
            CaptureMsg::Input(
                InputEvent::Mouse(
                    MouseEvent {
                        dx: (to.0 - from.0) as i16,
                        dy: (to.1 - from.1) as i16,
                        button: None,
                        state: None,
                    },
                ),
            ),
        ),
{
}

} // verus!

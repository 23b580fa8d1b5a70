//! Capture on Windows and on macOS.

use vstd::prelude::*;

use crate::input::capture::macos;
use crate::input::capture::macos::{EventKind, MacCapture, TapEvent};
use crate::input::capture::run;
use crate::input::capture::run::RunRound;
use crate::input::capture::windows;
use crate::input::capture::windows::{CaptureState, RawRecord, Reading};
use crate::input::event::{InputEvent, KeyEvent, KeyState, MouseButton, MouseEvent};
use crate::input::keycodes;
use crate::input::{CaptureMsg, CaptureOptions};

verus! {

/// The event of a key.
pub open spec fn key(hid: u16, state: KeyState) -> CaptureMsg {
    CaptureMsg::Input(InputEvent::Key(KeyEvent { hid, state }))
}

/// The event of a button.
pub open spec fn button(button: MouseButton, state: KeyState) -> CaptureMsg {
    CaptureMsg::Input(
        InputEvent::Mouse(MouseEvent { dx: 0, dy: 0, button: Some(button), state: Some(state) }),
    )
}

/// The event of a movement.
pub open spec fn movement(dx: int, dy: int) -> CaptureMsg {
    CaptureMsg::Input(
        InputEvent::Mouse(
            MouseEvent { dx: dx as i16, dy: dy as i16, button: None, state: None },
        ),
    )
}

/// The two places differ, by less than 2^15 in each coordinate.
pub open spec fn near(from: (i32, i32), to: (i32, i32)) -> bool {
    &&& from != to
    &&& -0x8000 <= to.0 - from.0 < 0x8000
    &&& -0x8000 <= to.1 - from.1 < 0x8000
}

/// Outside seamless mode a cursor that moved is reported with exactly its movement, in every
/// direction; its event is the last of the round. One that did not move, was not read, or had not
/// been seen, gives no such event, and the rest of the round is the same in each case.
pub proof fn movement_is_the_difference(s: CaptureState, poll: Reading)
    requires
        !s.opts.m4_mode,
    ensures
        s.last_pos matches Some(from) ==> (poll.cursor matches Some(to) ==> {
            &&& near(from, to) ==> {
                let msg = movement(to.0 - from.0, to.1 - from.1);
                &&& s.move_since(poll.cursor) == Some(msg)
                &&& s.events(poll).last() == msg
                &&& s.events(poll).drop_last() == s.edges(poll)
                &&& s.events(poll).len() == s.edges(poll).len() + 1
            }
            &&& from == to ==> s.move_since(poll.cursor) is None && s.events(poll) == s.edges(poll)
        }),
        s.last_pos is None || poll.cursor is None ==> s.move_since(poll.cursor) is None && s.events(
            poll,
        ) == s.edges(poll),
        poll.cursor is Some ==> s.next(poll).last_pos == poll.cursor,
        poll.cursor is None ==> s.next(poll).last_pos == s.last_pos,
        s.commands(poll).len() == 0,
        s.cursor_state(poll) is None,
        s.next(poll).seamless == s.seamless,
        s.next(poll).opts == s.opts,
{
}

/// A movement whose coordinates differ from `dx` and `dy` by multiples of 2^16, not both zero.
pub open spec fn low_bits(e: MouseEvent, dx: int, dy: int) -> bool {
    &&& (dx - e.dx) % 0x1_0000 == 0
    &&& (dy - e.dy) % 0x1_0000 == 0
    &&& e.dx != 0 || e.dy != 0
    &&& e.button is None
    &&& e.state is None
}

/// Of a longer movement the low sixteen bits of each coordinate are reported, as signed numbers, and
/// nothing where they are all zero. So it is on either platform.
pub proof fn long_movements_are_cut(
    s: CaptureState,
    from: (i32, i32),
    to: (i32, i32),
    c: MacCapture,
    ev: TapEvent,
)
    requires
        s.last_pos == Some(from),
        ev.kind is MouseMoved || ev.kind is LeftMouseDragged || ev.kind is RightMouseDragged
            || ev.kind is OtherMouseDragged,
    ensures
        match s.move_since(Some(to)) {
            Some(CaptureMsg::Input(InputEvent::Mouse(e))) => low_bits(
                e,
                to.0 - from.0,
                to.1 - from.1,
            ),
            Some(_) => false,
            None => (to.0 - from.0) % 0x1_0000 == 0 && (to.1 - from.1) % 0x1_0000 == 0,
        },
        match c.translated(ev) {
            Some(InputEvent::Mouse(e)) => low_bits(e, ev.delta_x as int, ev.delta_y as int),
            Some(_) => false,
            None => ev.delta_x as int % 0x1_0000 == 0 && ev.delta_y as int % 0x1_0000 == 0,
        },
{
}

/// The horizontal and the vertical sum of the movements that are reported in the first `n` rounds
/// of a run.
pub open spec fn reported(start: CaptureState, run: Seq<RunRound>, n: nat) -> (int, int)
    decreases n,
{
    if n == 0 {
        (0, 0)
    } else {
        let m = (n - 1) as nat;
        let (x, y) = reported(start, run, m);
        match run::at_round(start, run, m).move_since(run[n - 1].poll.cursor) {
            Some(CaptureMsg::Input(InputEvent::Mouse(e))) => (x + e.dx, y + e.dy),
            _ => (x, y),
        }
    }
}

/// Over a run of rounds outside seamless mode the movements that are reported sum to the last place
/// of the cursor minus the first, as long as no step is as long as 2^15.
pub proof fn movements_sum_to_the_way(
    start: CaptureState,
    run: Seq<RunRound>,
    places: Seq<(i32, i32)>,
    n: nat,
)
    requires
        !start.opts.m4_mode,
        n <= run.len(),
        places.len() == run.len() + 1,
        start.last_pos == Some(places[0]),
        forall|i: int| 0 <= i < run.len() ==> (#[trigger] run[i]).poll.cursor == Some(places[i + 1]),
        forall|i: int|
            0 <= i < run.len() ==> near(#[trigger] places[i], places[i + 1]) || places[i]
                == places[i + 1],
    ensures
        !run::after_rounds(start, run, n).opts.m4_mode,
        run::after_rounds(start, run, n).last_pos == Some(places[n as int]),
        reported(start, run, n) == (places[n as int].0 - places[0].0, places[n as int].1
            - places[0].1),
    decreases n,
{
    if n > 0 {
        let m = (n - 1) as nat;
        movements_sum_to_the_way(start, run, places, m);
        let s = run::at_round(start, run, m);
        let poll = run[m as int].poll;
        assert(places[m as int] == places[n - 1]);
        assert(poll.cursor == Some(places[n as int]));
        movement_is_the_difference(s, poll);
    }
}

/// In seamless mode a round drives the logical cursor by the raw movement and the place of the
/// local one, the origin where that could not be read, and what is sent besides is keys and buttons
/// only.
pub proof fn seamless_rounds_drive_the_cursor(s: CaptureState, poll: Reading)
    requires
        s.opts.m4_mode,
        poll.well_formed(),
    ensures
        ({
            let place = match poll.cursor {
                Some(p) => p,
                None => (0i32, 0i32),
            };
            let (dx, dy) = windows::movement(poll.raw, poll.raw.len());
            let raw = (dx as i64, dy as i64);
            &&& raw.0 == dx && raw.1 == dy
            &&& s.cursor_state(poll) == s.seamless.message(s.opts, place, raw, poll.now_ns)
            &&& s.commands(poll) == s.seamless.commands(s.opts, place, raw)
            &&& s.next(poll).seamless == s.seamless.next(s.opts, place, raw, poll.now_ns)
            &&& s.events(poll) == s.edges(poll)
            &&& s.next(poll).last_pos == s.last_pos
            &&& s.next(poll).opts == s.opts
        }),
{
    lemma_movement_bound(poll.raw, poll.raw.len());
}

proof fn lemma_movement_bound(records: Seq<RawRecord>, n: nat)
    requires
        n <= records.len(),
    ensures
        -0x8000_0000 * n <= windows::movement(records, n).0 <= 0x8000_0000 * n,
        -0x8000_0000 * n <= windows::movement(records, n).1 <= 0x8000_0000 * n,
    decreases n,
{
    if n > 0 {
        lemma_movement_bound(records, (n - 1) as nat);
    }
}

proof fn lemma_movement_prefix(a: Seq<RawRecord>, b: Seq<RawRecord>, n: nat)
    requires
        n <= a.len(),
    ensures
        windows::movement(a + b, n) == windows::movement(a, n),
    decreases n,
{
    if n > 0 {
        lemma_movement_prefix(a, b, (n - 1) as nat);
    }
}

/// Raw movements are summed: nothing gives no movement, a relative record of a mouse adds its own
/// in both coordinates, whatever their signs, and every other record adds nothing.
pub proof fn raw_movements_are_summed(records: Seq<RawRecord>, r: RawRecord)
    ensures
        windows::movement(Seq::<RawRecord>::empty(), 0) == (0int, 0int),
        ({
            let (x, y) = windows::movement(records, records.len());
            let (nx, ny) = windows::movement(records.push(r), records.len() + 1);
            if r.dw_type == 0 && r.flags % 2 == 0 {
                nx == x + r.last_x && ny == y + r.last_y
            } else {
                nx == x && ny == y
            }
        }),
{
    assert(records.push(r) =~= records + seq![r]);
    lemma_movement_prefix(records, seq![r], records.len());
}

/// Movement that is read in two parts is the sum of what is read of each.
pub proof fn raw_movements_can_be_split(a: Seq<RawRecord>, b: Seq<RawRecord>)
    ensures
        ({
            let (x, y) = windows::movement(a + b, (a + b).len());
            let (ax, ay) = windows::movement(a, a.len());
            let (bx, by) = windows::movement(b, b.len());
            x == ax + bx && y == ay + by
        }),
    decreases b.len(),
{
    if b.len() == 0 {
        assert(a + b =~= a);
    } else {
        let init = b.drop_last();
        raw_movements_can_be_split(a, init);
        raw_movements_are_summed(a + init, b.last());
        raw_movements_are_summed(init, b.last());
        assert((a + init).push(b.last()) =~= a + b);
        assert(init.push(b.last()) =~= b);
    }
}

/// A key that went down is reported as pressed, and one that came up as released, under the usage
/// id that names it; the sign bit of its state says that it is down.
pub proof fn key_edges_are_reported(prev: Seq<bool>, states: Seq<i16>, n: nat, vk: int, h: u16) -> (i:
    int)
    requires
        0 <= vk < n,
        n <= 256,
        keycodes::vk_names(vk as u16, h),
        (states[vk] < 0) != prev[vk],
    ensures
        0 <= i < windows::key_events(prev, states, n).len(),
        states[vk] < 0 ==> windows::key_events(prev, states, n)[i] == key(h, KeyState::Pressed),
        states[vk] >= 0 ==> windows::key_events(prev, states, n)[i] == key(h, KeyState::Released),
{
    keycodes::vk_round_trip(vk as u16, h);
    windows::changed_keys_are_reported(prev, states, n, vk)
}

/// Nothing but such edges is reported.
pub proof fn key_events_are_edges(prev: Seq<bool>, states: Seq<i16>, n: nat, i: int) -> (r: (int, u16))
    requires
        n <= 256,
        0 <= i < windows::key_events(prev, states, n).len(),
    ensures
        ({
            let (vk, h) = r;
            let msg = windows::key_events(prev, states, n)[i];
            &&& 0 <= vk < n
            &&& keycodes::vk_names(vk as u16, h)
            &&& states[vk] < 0 && !prev[vk] && msg == key(h, KeyState::Pressed) || states[vk] >= 0
                && prev[vk] && msg == key(h, KeyState::Released)
        }),
{
    let vk = windows::events_report_changed_keys(prev, states, n, i);
    let h = keycodes::hid_of_vk(vk as u16)->0;
    (vk, h)
}

/// There are no more events than keys that changed: each key has one at most.
pub proof fn keys_are_reported_once(prev: Seq<bool>, states: Seq<i16>, n: nat, i: int, j: int)
    requires
        n <= 256,
        0 <= i < j < windows::key_events(prev, states, n).len(),
    ensures
        ({
            let events = windows::key_events(prev, states, n);
            &&& events[i] matches CaptureMsg::Input(InputEvent::Key(a))
            &&& events[j] matches CaptureMsg::Input(InputEvent::Key(b))
            &&& a.hid != b.hid
        }),
    decreases n,
{
    let m = (n - 1) as nat;
    let before = windows::key_events(prev, states, m);
    let (va, ha) = key_events_are_edges(prev, states, n, i);
    let (vb, hb) = key_events_are_edges(prev, states, n, j);
    if j < before.len() {
        keys_are_reported_once(prev, states, m, i, j);
    } else {
        let (v, h) = key_events_are_edges(prev, states, m, i);
        let last = keycodes::hid_of_vk(m as u16)->0;
        if h == last {
            keycodes::vk_table_is_one_to_one(v as u16, h, m as u16, last);
        }
    }
}

/// The left, the right and the middle button are reported, in this order, each where it changed:
/// as pressed where it went down and as released where it came up.
pub proof fn button_edges_are_reported(prev: Seq<bool>, states: Seq<i16>)
    ensures
        ({
            let left = button_edge(MouseButton::Left, prev[0], states[0]);
            let right = button_edge(MouseButton::Right, prev[1], states[1]);
            let middle = button_edge(MouseButton::Middle, prev[2], states[2]);
            windows::button_events(prev, states, 3) == left + right + middle
        }),
{
    reveal_with_fuel(windows::button_events, 4);
    let left = button_edge(MouseButton::Left, prev[0], states[0]);
    let right = button_edge(MouseButton::Right, prev[1], states[1]);
    let middle = button_edge(MouseButton::Middle, prev[2], states[2]);
    assert(windows::button_events(prev, states, 3) =~= left + right + middle);
}

/// The events of one button: one where it went down or came up, none where it stayed.
pub open spec fn button_edge(b: MouseButton, was_down: bool, state: i16) -> Seq<CaptureMsg> {
    if !was_down && state < 0 {
        seq![button(b, KeyState::Pressed)]
    } else if was_down && state >= 0 {
        seq![button(b, KeyState::Released)]
    } else {
        Seq::empty()
    }
}

/// What a round forwards: outside seamless mode, and in it while the cursor is on the Mac, every
/// edge of a key and then every edge of a button; while the cursor is here, nothing. The states of
/// this round are remembered for the next in either case.
pub proof fn edges_are_forwarded_where_the_cursor_is(s: CaptureState, poll: Reading)
    requires
        poll.well_formed(),
    ensures
        !s.opts.m4_mode || s.seamless.on_mac ==> s.edges(poll) == windows::key_events(
            s.prev_keys,
            poll.keys,
            256,
        ) + windows::button_events(s.prev_buttons, poll.buttons, 3),
        s.opts.m4_mode && !s.seamless.on_mac ==> s.edges(poll) == Seq::<CaptureMsg>::empty(),
        s.next(poll).prev_keys.len() == 256,
        forall|vk: int|
            0 <= vk < 256 ==> (#[trigger] s.next(poll).prev_keys[vk]) == (poll.keys[vk] < 0),
        s.next(poll).prev_buttons.len() == 3,
        forall|i: int|
            0 <= i < 3 ==> (#[trigger] s.next(poll).prev_buttons[i]) == (poll.buttons[i] < 0),
{
}

/// At the start no key and no button is down, the cursor has not been seen and is here.
pub proof fn capture_starts_released(opts: CaptureOptions, now_ns: u64)
    ensures
        ({
            let s = CaptureState::initial(opts, now_ns);
            &&& s.opts == opts
            &&& s.prev_keys.len() == 256
            &&& forall|vk: int| 0 <= vk < 256 ==> !(#[trigger] s.prev_keys[vk])
            &&& s.prev_buttons.len() == 3
            &&& forall|i: int| 0 <= i < 3 ==> !(#[trigger] s.prev_buttons[i])
            &&& s.last_pos is None
            &&& !s.seamless.on_mac
            &&& s.seamless.mac_x == 0 && s.seamless.mac_y == 0 && s.seamless.pin_y == 0
            &&& s.seamless.last_sent is None
            &&& s.seamless.last_stream_ns == now_ns
        }),
{
}

/// A round sends its events, and after them the cursor state, where there is one.
pub proof fn cursor_states_are_sent_last(s: CaptureState, poll: Reading)
    ensures
        s.cursor_state(poll) matches Some(msg) ==> s.sent(poll) == s.events(poll).push(msg),
        s.cursor_state(poll) is None ==> s.sent(poll) == s.events(poll),
{
}

/// A key that is tapped on a Mac becomes the event of the usage id that names it: a press where it
/// went down, a release where it came up. A key without a usage id becomes nothing, and no key
/// event changes what is remembered.
pub proof fn mac_keys_are_named(c: MacCapture, ev: TapEvent, kc: u16, h: u16)
    requires
        ev.keycode == kc,
    ensures
        keycodes::mac::mac_key_names(kc, h) ==> {
            &&& ev.kind is KeyDown ==> c.translated(ev) == Some(
                InputEvent::Key(KeyEvent { hid: h, state: KeyState::Pressed }),
            )
            &&& ev.kind is KeyUp ==> c.translated(ev) == Some(
                InputEvent::Key(KeyEvent { hid: h, state: KeyState::Released }),
            )
        },
        (forall|g: u16| !keycodes::mac::mac_key_names(kc, g)) && (ev.kind is KeyDown
            || ev.kind is KeyUp || ev.kind is FlagsChanged) ==> c.translated(ev) is None,
        !(ev.kind is FlagsChanged) ==> c.next(ev) == c,
{
    if keycodes::mac::mac_key_names(kc, h) {
        keycodes::mac::mac_round_trip(kc, h);
    }
}

/// A key code beyond 16 bits counts by its low 16 bits.
pub proof fn mac_key_codes_have_sixteen_bits(c: MacCapture, ev: TapEvent, low: TapEvent)
    requires
        0 <= low.keycode < 0x1_0000,
        (ev.keycode - low.keycode) % 0x1_0000 == 0,
        low == (TapEvent { keycode: low.keycode, ..ev }),
    ensures
        c.translated(ev) == c.translated(low),
        c.next(ev) == c.next(low),
{
}

/// A change of the flags on a Mac: a followed modifier is pressed where its flag is set now and was
/// not before, released where it was and is not, and silent where it is as it was. The flags are
/// remembered. A key that is no modifier, or has no usage id, is silent and changes nothing.
pub proof fn mac_modifiers_follow_their_flags(
    c: MacCapture,
    ev: TapEvent,
    kc: u16,
    bit: u64,
    h: u16,
)
    requires
        ev.kind is FlagsChanged,
        ev.keycode == kc,
    ensures
        keycodes::mac::mac_key_names(kc, h) && modifier_flag(
            kc,
            bit,
        ) ==> {
            let before = c.prev_flags & bit != 0;
            let now = ev.flags & bit != 0;
            &&& !before && now ==> c.translated(ev) == Some(
                InputEvent::Key(KeyEvent { hid: h, state: KeyState::Pressed }),
            )
            &&& before && !now ==> c.translated(ev) == Some(
                InputEvent::Key(KeyEvent { hid: h, state: KeyState::Released }),
            )
            &&& before == now ==> c.translated(ev) is None
            &&& c.next(ev).prev_flags == ev.flags
        },
        (forall|b: u64| !modifier_flag(kc, b)) || (forall|g: u16|
            !keycodes::mac::mac_key_names(kc, g)) ==> c.translated(ev) is None
            && c.next(ev) == c,
{
    if keycodes::mac::mac_key_names(kc, h) {
        keycodes::mac::mac_round_trip(kc, h);
    }
    if macos::flag_bit(kc) is Some {
        assert(modifier_flag(kc, macos::flag_bit(kc)->0));
    }
}

/// The flags of the modifiers, as the system assigns them: Command, Option, Control, either Shift,
/// Caps Lock.
pub open spec fn modifier_flag(kc: u16, bit: u64) -> bool {
    ||| kc == 0x37 && bit == 0x10_0000
    ||| kc == 0x3A && bit == 0x8_0000
    ||| kc == 0x3B && bit == 0x4_0000
    ||| (kc == 0x38 || kc == 0x3C) && bit == 0x2_0000
    ||| kc == 0x39 && bit == 0x1_0000
}

/// The flag that is looked up for a key is the one that the system assigns to it.
pub proof fn modifier_flags_are_those_of_the_system(kc: u16, bit: u64)
    ensures
        macos::flag_bit(kc) == Some(bit) <==> modifier_flag(kc, bit),
        macos::flag_bit(kc) is None <==> forall|b: u64| !modifier_flag(kc, b),
{
    if macos::flag_bit(kc) is Some {
        assert(modifier_flag(kc, macos::flag_bit(kc)->0));
    }
}

/// Buttons on a Mac: each edge becomes an event of that button, and a movement, dragging or not,
/// becomes exactly that movement where it is below 2^15 either way; none becomes nothing.
pub proof fn mac_mouse_events_are_kept(c: MacCapture, ev: TapEvent)
    ensures
        ev.kind is LeftMouseDown ==> c.translated(ev) == Some(
            tapped(MouseButton::Left, KeyState::Pressed),
        ),
        ev.kind is LeftMouseUp ==> c.translated(ev) == Some(
            tapped(MouseButton::Left, KeyState::Released),
        ),
        ev.kind is RightMouseDown ==> c.translated(ev) == Some(
            tapped(MouseButton::Right, KeyState::Pressed),
        ),
        ev.kind is RightMouseUp ==> c.translated(ev) == Some(
            tapped(MouseButton::Right, KeyState::Released),
        ),
        ev.kind is OtherMouseDown ==> c.translated(ev) == Some(
            tapped(MouseButton::Middle, KeyState::Pressed),
        ),
        ev.kind is OtherMouseUp ==> c.translated(ev) == Some(
            tapped(MouseButton::Middle, KeyState::Released),
        ),
        ev.kind is Other ==> c.translated(ev) is None,
        ev.kind is MouseMoved || ev.kind is LeftMouseDragged || ev.kind is RightMouseDragged
            || ev.kind is OtherMouseDragged ==> {
            &&& ev.delta_x == 0 && ev.delta_y == 0 ==> c.translated(ev) is None
            &&& (ev.delta_x != 0 || ev.delta_y != 0) && -0x8000 <= ev.delta_x < 0x8000 && -0x8000
                <= ev.delta_y < 0x8000 ==> c.translated(ev) == Some(
                InputEvent::Mouse(
                    MouseEvent {
                        dx: ev.delta_x as i16,
                        dy: ev.delta_y as i16,
                        button: None,
                        state: None,
                    },
                ),
            )
        },
{
}

/// The event of a button.
pub open spec fn tapped(button: MouseButton, state: KeyState) -> InputEvent {
    InputEvent::Mouse(MouseEvent { dx: 0, dy: 0, button: Some(button), state: Some(state) })
}

/// Keys are reported in the order of their virtual keys.
pub proof fn keys_are_reported_in_order(prev: Seq<bool>, states: Seq<i16>, n: nat, i: int, j: int) -> (
    r: (u16, u16))
    requires
        n <= 256,
        0 <= i < j < windows::key_events(prev, states, n).len(),
    ensures
        r.0 < r.1 < n,
        ({
            let events = windows::key_events(prev, states, n);
            &&& events[i] matches CaptureMsg::Input(InputEvent::Key(a))
            &&& events[j] matches CaptureMsg::Input(InputEvent::Key(b))
            &&& keycodes::vk_names(r.0, a.hid)
            &&& keycodes::vk_names(r.1, b.hid)
        }),
    decreases n,
{
    let m = (n - 1) as nat;
    let before = windows::key_events(prev, states, m);
    if j < before.len() {
        keys_are_reported_in_order(prev, states, m, i, j)
    } else {
        let (va, ha) = key_events_are_edges(prev, states, m, i);
        (va as u16, m as u16)
    }
}

} // verus!

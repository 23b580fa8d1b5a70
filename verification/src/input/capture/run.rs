//! What holds of everything that the Windows capture loop sends, over any number of rounds.

use vstd::prelude::*;

use super::windows::{CaptureState, Reading};
use crate::input::event::{InputEvent, KeyState};
use crate::input::{CaptureMsg, CaptureOptions};

verus! {

/// One round of a run: the size of the peer's screen as it is known by then, and what is read.
pub struct RunRound {
    pub mac_w: u32,
    pub mac_h: u32,
    pub poll: Reading,
}

/// The loop's memory with the size of the peer's screen noted.
pub open spec fn noted(s: CaptureState, mac_w: u32, mac_h: u32) -> CaptureState {
    CaptureState { opts: CaptureOptions { mac_w, mac_h, ..s.opts }, ..s }
}

/// The loop's memory before round `n` of a run, once the peer's screen is noted.
pub open spec fn at_round(start: CaptureState, run: Seq<RunRound>, n: nat) -> CaptureState {
    noted(after_rounds(start, run, n), run[n as int].mac_w, run[n as int].mac_h)
}

/// The loop's memory after the first `n` rounds of a run.
pub open spec fn after_rounds(start: CaptureState, run: Seq<RunRound>, n: nat) -> CaptureState
    decreases n,
{
    if n == 0 {
        start
    } else {
        let r = run[n - 1];
        noted(after_rounds(start, run, (n - 1) as nat), r.mac_w, r.mac_h).next(r.poll)
    }
}

/// Everything that is sent in the first `n` rounds of a run, in order.
pub open spec fn transcript(start: CaptureState, run: Seq<RunRound>, n: nat) -> Seq<CaptureMsg>
    decreases n,
{
    if n == 0 {
        Seq::empty()
    } else {
        let m = (n - 1) as nat;
        transcript(start, run, m) + at_round(start, run, m).sent(run[n - 1].poll)
    }
}

/// The message announces that the cursor is on the Mac, or that it is not.
pub open spec fn announces(msg: CaptureMsg, there: bool) -> bool {
    msg matches CaptureMsg::CursorState { on_mac, .. } && on_mac == there
}

/// At place `i` the cursor has been announced on the Mac, and not taken back since.
pub open spec fn on_visit(log: Seq<CaptureMsg>, i: int) -> bool {
    exists|j: int|
        #![trigger log[j]]
        0 <= j < i && announces(log[j], true) && (forall|k: int|
            j < k < i ==> !announces(#[trigger] log[k], false))
}

/// What the last cursor state among the first `i` messages announces.
spec fn visiting(log: Seq<CaptureMsg>, i: nat) -> bool
    decreases i,
{
    if i == 0 {
        false
    } else {
        match log[i - 1] {
            CaptureMsg::CursorState { on_mac, .. } => on_mac,
            CaptureMsg::Input(_) => visiting(log, (i - 1) as nat),
        }
    }
}

proof fn lemma_visiting_is_on_visit(log: Seq<CaptureMsg>, i: nat)
    requires
        i <= log.len(),
    ensures
        visiting(log, i) == on_visit(log, i as int),
    decreases i,
{
    if i > 0 {
        let m = i - 1;
        lemma_visiting_is_on_visit(log, m as nat);
        match log[m] {
            CaptureMsg::CursorState { on_mac, .. } => {
                if on_mac {
                    assert(announces(log[m], true));
                } else {
                    assert(announces(log[m], false));
                }
            },
            CaptureMsg::Input(_) => {
                if on_visit(log, m) {
                    let j = choose|j: int|
                        #![trigger log[j]]
                        0 <= j < m && announces(log[j], true) && (forall|k: int|
                            j < k < m ==> !announces(#[trigger] log[k], false));
                    assert(announces(log[j], true));
                }
                if on_visit(log, i as int) {
                    let j = choose|j: int|
                        #![trigger log[j]]
                        0 <= j < i && announces(log[j], true) && (forall|k: int|
                            j < k < i ==> !announces(#[trigger] log[k], false));
                    assert(j != m);
                    assert(announces(log[j], true));
                }
            },
        }
    }
}

/// What is sent later does not change what was announced before.
proof fn lemma_visiting_prefix(a: Seq<CaptureMsg>, b: Seq<CaptureMsg>, i: nat)
    requires
        i <= a.len(),
    ensures
        visiting(a + b, i) == visiting(a, i),
    decreases i,
{
    if i > 0 {
        lemma_visiting_prefix(a, b, (i - 1) as nat);
    }
}

/// Input events announce nothing.
proof fn lemma_visiting_over_input(log: Seq<CaptureMsg>, from: nat, to: nat)
    requires
        from <= to <= log.len(),
        forall|k: int| from <= k < to ==> (#[trigger] log[k]) is Input,
    ensures
        visiting(log, to) == visiting(log, from),
    decreases to,
{
    if from < to {
        lemma_visiting_over_input(log, from, (to - 1) as nat);
        assert(log[to - 1] is Input);
    }
}

/// The events of keys and buttons are input events.
proof fn lemma_edges_are_input(prev: Seq<bool>, states: Seq<i16>, n: nat)
    ensures
        forall|k: int|
            0 <= k < super::windows::key_events(prev, states, n).len() ==> (
            #[trigger] super::windows::key_events(prev, states, n)[k]) is Input,
        forall|k: int|
            0 <= k < super::windows::button_events(prev, states, n).len() ==> (
            #[trigger] super::windows::button_events(prev, states, n)[k]) is Input,
    decreases n,
{
    if n > 0 {
        lemma_edges_are_input(prev, states, (n - 1) as nat);
    }
}

proof fn lemma_events_are_input(s: CaptureState, poll: Reading)
    ensures
        forall|k: int| 0 <= k < s.events(poll).len() ==> (#[trigger] s.events(poll)[k]) is Input,
{
    lemma_edges_are_input(s.prev_keys, poll.keys, super::windows::KEYS as nat);
    lemma_edges_are_input(s.prev_buttons, poll.buttons, 3);
}

proof fn lemma_mode_stays(start: CaptureState, run: Seq<RunRound>, n: nat)
    ensures
        after_rounds(start, run, n).opts.m4_mode == start.opts.m4_mode,
    decreases n,
{
    if n > 0 {
        lemma_mode_stays(start, run, (n - 1) as nat);
    }
}

proof fn lemma_transcript_follows_the_cursor(
    opts: CaptureOptions,
    start_ns: u64,
    run: Seq<RunRound>,
    n: nat,
)
    requires
        opts.m4_mode,
    ensures
        ({
            let start = CaptureState::initial(opts, start_ns);
            let log = transcript(start, run, n);
            &&& visiting(log, log.len()) == after_rounds(start, run, n).seamless.on_mac
            &&& forall|i: int|
                0 <= i < log.len() ==> match #[trigger] log[i] {
                    CaptureMsg::Input(_) => visiting(log, i as nat),
                    CaptureMsg::CursorState { on_mac, x, .. } => if on_mac {
                        visiting(log, i as nat) || x == 0
                    } else {
                        visiting(log, i as nat)
                    },
                }
        }),
    decreases n,
{
    if n > 0 {
        let start = CaptureState::initial(opts, start_ns);
        let m = (n - 1) as nat;
        lemma_transcript_follows_the_cursor(opts, start_ns, run, m);
        lemma_mode_stays(start, run, m);
        let poll = run[m as int].poll;
        let s = at_round(start, run, m);
        let before = transcript(start, run, m);
        let events = s.events(poll);
        let log = transcript(start, run, n);
        let base = before.len();
        lemma_events_are_input(s, poll);
        assert(log == before + s.sent(poll));
        assert forall|k: int| base <= k < base + events.len() implies (#[trigger] log[k]) is Input by {
            assert(log[k] == events[k - base]);
        }
        lemma_visiting_prefix(before, s.sent(poll), base);
        assert forall|i: int| 0 <= i < log.len() implies match #[trigger] log[i] {
            CaptureMsg::Input(_) => visiting(log, i as nat),
            CaptureMsg::CursorState { on_mac, x, .. } => if on_mac {
                visiting(log, i as nat) || x == 0
            } else {
                visiting(log, i as nat)
            },
        } by {
            if i < base {
                lemma_visiting_prefix(before, s.sent(poll), i as nat);
                assert(log[i] == before[i]);
            } else if i < base + events.len() {
                lemma_visiting_over_input(log, base, i as nat);
            } else {
                lemma_visiting_over_input(log, base, i as nat);
                assert(log[i] == s.cursor_state(poll)->0);
            }
        }
        lemma_visiting_over_input(log, base, base + events.len());
    }
}

/// In seamless mode, over any run of rounds: input is sent only between an announcement that the
/// cursor is on the Mac and the next one that it is not. A visit to the Mac starts at its left
/// edge. It is ended by one announcement, and none comes outside a visit.
pub proof fn input_is_sent_on_visits_only(
    opts: CaptureOptions,
    start_ns: u64,
    run: Seq<RunRound>,
    i: int,
)
    requires
        opts.m4_mode,
        0 <= i < transcript(CaptureState::initial(opts, start_ns), run, run.len()).len(),
    ensures
        ({
            let log = transcript(CaptureState::initial(opts, start_ns), run, run.len());
            match log[i] {
                CaptureMsg::Input(_) => on_visit(log, i),
                CaptureMsg::CursorState { on_mac, x, .. } => if on_mac {
                    !on_visit(log, i) ==> x == 0
                } else {
                    on_visit(log, i)
                },
            }
        }),
{
    let log = transcript(CaptureState::initial(opts, start_ns), run, run.len());
    lemma_transcript_follows_the_cursor(opts, start_ns, run, run.len());
    lemma_visiting_is_on_visit(log, i as nat);
    assert(log[i] == log[i]);
}

/// The message is an event of the key with usage id `h`, in the given direction.
pub open spec fn is_key(msg: CaptureMsg, h: u16, state: KeyState) -> bool {
    msg matches CaptureMsg::Input(InputEvent::Key(k)) && k.hid == h && k.state == state
}

/// The message is an event of the key with usage id `h`.
pub open spec fn of_key(msg: CaptureMsg, h: u16) -> bool {
    is_key(msg, h, KeyState::Pressed) || is_key(msg, h, KeyState::Released)
}

/// Among the first `i` messages the last event of the key is a press.
spec fn held(log: Seq<CaptureMsg>, h: u16, i: nat) -> bool
    decreases i,
{
    if i == 0 {
        false
    } else if of_key(log[i - 1], h) {
        is_key(log[i - 1], h, KeyState::Pressed)
    } else {
        held(log, h, (i - 1) as nat)
    }
}

proof fn lemma_held_prefix(a: Seq<CaptureMsg>, b: Seq<CaptureMsg>, h: u16, i: nat)
    requires
        i <= a.len(),
    ensures
        held(a + b, h, i) == held(a, h, i),
    decreases i,
{
    if i > 0 {
        lemma_held_prefix(a, b, h, (i - 1) as nat);
    }
}

/// Messages that are no events of the key leave it as it was.
proof fn lemma_held_over_others(log: Seq<CaptureMsg>, h: u16, from: nat, to: nat)
    requires
        from <= to <= log.len(),
        forall|k: int| from <= k < to ==> !of_key(#[trigger] log[k], h),
    ensures
        held(log, h, to) == held(log, h, from),
    decreases to,
{
    if from < to {
        lemma_held_over_others(log, h, from, (to - 1) as nat);
        assert(!of_key(log[to - 1], h));
    }
}

/// The event of a key at place `i` turns the key over, and the table holds the key.
spec fn turns_over(log: Seq<CaptureMsg>, i: int) -> bool {
    log[i] matches CaptureMsg::Input(InputEvent::Key(k)) ==> {
        &&& k.state is Pressed <==> !held(log, k.hid, i as nat)
        &&& known(k.hid)
    }
}

/// The usage id is that of one of the virtual keys that are polled.
pub open spec fn known(h: u16) -> bool {
    exists|vk: u16|
        vk < super::windows::KEYS && #[trigger] crate::input::keycodes::hid_of_vk(vk) == Some(h)
}

/// Two virtual keys with the same usage id are the same.
proof fn lemma_same_hid(a: u16, b: u16)
    requires
        crate::input::keycodes::hid_of_vk(a) is Some,
        crate::input::keycodes::hid_of_vk(a) == crate::input::keycodes::hid_of_vk(b),
    ensures
        a == b,
{
    let h = crate::input::keycodes::hid_of_vk(a)->0;
    crate::input::keycodes::vk_table_is_one_to_one(a, h, b, h);
}

/// The keys among the first `n` are held as the new states say, the others as before.
spec fn agrees(
    log: Seq<CaptureMsg>,
    prev: Seq<bool>,
    states: Seq<i16>,
    n: nat,
) -> bool {
    forall|vk: u16|
        vk < super::windows::KEYS && (
        #[trigger] crate::input::keycodes::hid_of_vk(vk)) is Some ==> held(
            log,
            crate::input::keycodes::hid_of_vk(vk)->0,
            log.len(),
        ) == if vk < n {
            super::windows::is_down(states[vk as int])
        } else {
            prev[vk as int]
        }
}

proof fn lemma_keys_turn_over(
    before: Seq<CaptureMsg>,
    prev: Seq<bool>,
    states: Seq<i16>,
    n: nat,
)
    requires
        n <= super::windows::KEYS,
        agrees(before, prev, states, 0),
        forall|i: int| 0 <= i < before.len() ==> turns_over(before, i),
    ensures
        ({
            let log = before + super::windows::key_events(prev, states, n);
            &&& agrees(log, prev, states, n)
            &&& forall|i: int| 0 <= i < log.len() ==> turns_over(log, i)
        }),
    decreases n,
{
    let events = super::windows::key_events(prev, states, n);
    if n == 0 {
        assert(before + events =~= before);
    } else {
        let m = (n - 1) as nat;
        lemma_keys_turn_over(before, prev, states, m);
        let vk = m as u16;
        let old = before + super::windows::key_events(prev, states, m);
        let log = before + events;
        let hid = crate::input::keycodes::hid_of_vk(vk);
        if super::windows::is_down(states[m as int]) != prev[m as int] && hid is Some {
            let msg = events.last();
            assert(log =~= old.push(msg));
            assert(log =~= old + seq![msg]);
            assert(is_key(msg, hid->0, super::windows::edge(super::windows::is_down(states[m as int]))));
            assert forall|i: int| 0 <= i < log.len() implies turns_over(log, i) by {
                if i < old.len() {
                    assert(turns_over(old, i));
                    if let CaptureMsg::Input(InputEvent::Key(k)) = log[i] {
                        lemma_held_prefix(old, seq![msg], k.hid, i as nat);
                    }
                } else {
                    lemma_held_prefix(old, seq![msg], hid->0, old.len());
                    assert(crate::input::keycodes::hid_of_vk(vk) == Some(hid->0));
                }
            }
            assert forall|w: u16|
                w < super::windows::KEYS && (
                #[trigger] crate::input::keycodes::hid_of_vk(w)) is Some implies held(
                log,
                crate::input::keycodes::hid_of_vk(w)->0,
                log.len(),
            ) == if w < n {
                super::windows::is_down(states[w as int])
            } else {
                prev[w as int]
            } by {
                let h = crate::input::keycodes::hid_of_vk(w)->0;
                lemma_held_prefix(old, seq![msg], h, old.len());
                if w != vk && h == hid->0 {
                    lemma_same_hid(w, vk);
                }
            }
        } else {
            assert(log =~= old);
        }
    }
}

proof fn lemma_no_keys_in_buttons(prev: Seq<bool>, states: Seq<i16>, n: nat)
    ensures
        forall|k: int|
            0 <= k < super::windows::button_events(prev, states, n).len() ==> (
            #[trigger] super::windows::button_events(prev, states, n)[k]) matches CaptureMsg::Input(
                InputEvent::Mouse(_),
            ),
    decreases n,
{
    if n > 0 {
        lemma_no_keys_in_buttons(prev, states, (n - 1) as nat);
    }
}

proof fn lemma_transcript_turns_over(
    opts: CaptureOptions,
    start_ns: u64,
    run: Seq<RunRound>,
    n: nat,
)
    requires
        !opts.m4_mode,
        n <= run.len(),
        forall|r: int| 0 <= r < run.len() ==> (#[trigger] run[r]).poll.well_formed(),
    ensures
        ({
            let start = CaptureState::initial(opts, start_ns);
            let log = transcript(start, run, n);
            &&& agrees(log, after_rounds(start, run, n).prev_keys, Seq::empty(), 0)
            &&& forall|i: int| 0 <= i < log.len() ==> turns_over(log, i)
            &&& forall|i: int| 0 <= i < log.len() ==> (#[trigger] log[i]) is Input
        }),
    decreases n,
{
    let start = CaptureState::initial(opts, start_ns);
    if n > 0 {
        let m = (n - 1) as nat;
        lemma_transcript_turns_over(opts, start_ns, run, m);
        lemma_mode_stays(start, run, m);
        let poll = run[m as int].poll;
        let s = at_round(start, run, m);
        let before = transcript(start, run, m);
        let keys = super::windows::key_events(s.prev_keys, poll.keys, super::windows::KEYS as nat);
        let buttons = super::windows::button_events(s.prev_buttons, poll.buttons, 3);
        let log = transcript(start, run, n);
        assert(poll.well_formed());
        assert(agrees(before, s.prev_keys, poll.keys, 0));
        lemma_keys_turn_over(before, s.prev_keys, poll.keys, super::windows::KEYS as nat);
        lemma_no_keys_in_buttons(s.prev_buttons, poll.buttons, 3);
        lemma_events_are_input(s, poll);
        let typed = before + keys;
        let rest = s.sent(poll).skip(keys.len() as int);
        assert(s.sent(poll) =~= keys + rest);
        assert(log =~= typed + rest);
        assert forall|k: int| typed.len() <= k < log.len() implies (
        #[trigger] log[k]) matches CaptureMsg::Input(InputEvent::Mouse(_)) by {
            let at = k - typed.len();
            if at < buttons.len() {
                assert(log[k] == buttons[at]);
            }
        }
        assert forall|i: int| 0 <= i < log.len() implies turns_over(log, i) by {
            if i < typed.len() {
                assert(turns_over(typed, i));
                if let CaptureMsg::Input(InputEvent::Key(k)) = log[i] {
                    lemma_held_prefix(typed, rest, k.hid, i as nat);
                }
            }
        }
        assert forall|i: int| 0 <= i < log.len() implies (#[trigger] log[i]) is Input by {
            if i < before.len() {
                assert(log[i] == before[i]);
            } else {
                assert(log[i] == s.events(poll)[i - before.len()]);
            }
        }
        assert forall|w: u16|
            w < super::windows::KEYS && (
            #[trigger] crate::input::keycodes::hid_of_vk(w)) is Some implies held(
            log,
            crate::input::keycodes::hid_of_vk(w)->0,
            log.len(),
        ) == super::windows::downs(poll.keys)[w as int] by {
            let h = crate::input::keycodes::hid_of_vk(w)->0;
            lemma_held_prefix(typed, rest, h, typed.len());
            lemma_held_over_others(log, h, typed.len(), log.len());
        }
    }
}

/// Outside seamless mode, over any run of rounds: only input is sent. Of each key that events
/// name, one of the polled virtual keys is the source. The events of one key alternate: the first
/// is a press, and of two with none between them one is a press and the other a release. A held
/// key does not repeat.
pub proof fn key_events_alternate(
    opts: CaptureOptions,
    start_ns: u64,
    run: Seq<RunRound>,
    h: u16,
)
    requires
        !opts.m4_mode,
        forall|r: int| 0 <= r < run.len() ==> (#[trigger] run[r]).poll.well_formed(),
    ensures
        ({
            let log = transcript(CaptureState::initial(opts, start_ns), run, run.len());
            &&& forall|i: int| 0 <= i < log.len() ==> (#[trigger] log[i]) is Input
            &&& forall|i: int| 0 <= i < log.len() && of_key(#[trigger] log[i], h) ==> known(h)
            &&& forall|i: int|
                0 <= i < log.len() && of_key(#[trigger] log[i], h) && (forall|k: int|
                    0 <= k < i ==> !of_key(#[trigger] log[k], h)) ==> is_key(
                    log[i],
                    h,
                    KeyState::Pressed,
                )
            &&& forall|i: int, j: int|
                0 <= i < j < log.len() && of_key(#[trigger] log[i], h) && of_key(
                    #[trigger] log[j],
                    h,
                ) && (forall|k: int| i < k < j ==> !of_key(#[trigger] log[k], h)) ==> is_key(
                    log[i],
                    h,
                    KeyState::Pressed,
                ) != is_key(log[j], h, KeyState::Pressed)
        }),
{
    let log = transcript(CaptureState::initial(opts, start_ns), run, run.len());
    lemma_transcript_turns_over(opts, start_ns, run, run.len());
    assert forall|i: int| 0 <= i < log.len() && of_key(#[trigger] log[i], h) implies known(h) by {
        assert(turns_over(log, i));
    }
    assert forall|i: int|
        0 <= i < log.len() && of_key(#[trigger] log[i], h) && (forall|k: int|
            0 <= k < i ==> !of_key(#[trigger] log[k], h)) implies is_key(
        log[i],
        h,
        KeyState::Pressed,
    ) by {
        assert(turns_over(log, i));
        lemma_held_over_others(log, h, 0, i as nat);
    }
    assert forall|i: int, j: int|
        0 <= i < j < log.len() && of_key(#[trigger] log[i], h) && of_key(#[trigger] log[j], h) && (
        forall|k: int| i < k < j ==> !of_key(#[trigger] log[k], h)) implies is_key(
        log[i],
        h,
        KeyState::Pressed,
    ) != is_key(log[j], h, KeyState::Pressed) by {
        assert(turns_over(log, j));
        lemma_held_over_others(log, h, (i + 1) as nat, j as nat);
        assert(held(log, h, (i + 1) as nat) == is_key(log[i], h, KeyState::Pressed));
    }
}

} // verus!

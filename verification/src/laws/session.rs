//! Sessions: what is sent, what a message does, and what becomes of an event on the other side.

use vstd::prelude::*;

use crate::input::capture::windows;
use crate::input::capture::windows::{CaptureState, Reading};
use crate::input::event::{InputEvent, KeyEvent, KeyState, MouseButton, MouseEvent};
use crate::input::inject::macos::{MacAction, MacPointer};
use crate::input::keycodes;
use crate::input::CaptureMsg;
use crate::launch;
use crate::launch::Launch;
use crate::net::course::{Course, Input, Phase, Step};
use crate::net::protocol::{CursorState, Message, Transfer};
use crate::net::transport;
use crate::net::transport::{Action, LocalEvent, Session};
use crate::switch::{Side, Switch};

verus! {

/// A server outside switch mode sends everything that is captured, as it is: every input event, of
/// the keyboard and of the mouse, and every cursor state.
pub proof fn a_server_forwards_all_it_captures(s: Session, ev: InputEvent, on_mac: bool, x: u32, y: u32)
    requires
        !s.is_client,
        s.switch is None,
    ensures
        s.outgoing_spec(LocalEvent::Captured(CaptureMsg::Input(ev))) == Some(Message::Input(ev)),
        s.outgoing_spec(LocalEvent::Captured(CaptureMsg::CursorState { on_mac, x, y })) == Some(
            Message::CursorState(CursorState { on_mac, x, y }),
        ),
{
}

/// A client sends nothing that is captured, and neither does a server in switch mode.
pub proof fn others_forward_nothing(s: Session, msg: CaptureMsg)
    requires
        s.is_client || s.switch is Some,
    ensures
        s.outgoing_spec(LocalEvent::Captured(msg)) is None,
{
}

/// Every heartbeat is sent with its time, and in switch mode every crossing with its entry point.
pub proof fn heartbeats_and_crossings_are_sent(s: Session, t: u64, crossing: Transfer)
    ensures
        s.outgoing_spec(LocalEvent::Tick { t }) == Some(Message::Heartbeat { t }),
        s.switch is Some ==> s.outgoing_spec(LocalEvent::Crossed(crossing)) == Some(
            Message::Transfer(crossing),
        ),
        s.switch is None ==> s.outgoing_spec(LocalEvent::Crossed(crossing)) is None,
{
}

/// What is captured on a server is injected on a client that injects: exactly the same event.
pub proof fn captured_events_are_injected(server: Session, client: Session, ev: InputEvent, now: u64)
    requires
        !server.is_client,
        server.switch is None,
        client.inject,
    ensures
        server.outgoing_spec(LocalEvent::Captured(CaptureMsg::Input(ev))) matches Some(msg)
            && client.response(msg, now) == Action::Inject(ev) && client.after(msg) == client,
{
}

/// What a server's capture says of the cursor, a client is asked to show, unchanged.
pub proof fn cursor_states_are_shown(
    server: Session,
    client: Session,
    on_mac: bool,
    x: u32,
    y: u32,
    now: u64,
)
    requires
        !server.is_client,
        server.switch is None,
        client.is_client,
    ensures
        server.outgoing_spec(
            LocalEvent::Captured(CaptureMsg::CursorState { on_mac, x, y }),
        ) matches Some(msg) && client.response(msg, now) == Action::ShowCursor(
            CursorState { on_mac, x, y },
        ) && client.after(msg) == client,
{
}

/// A crossing that one side reports gives the pointer to the other, with the cursor at the entry
/// point.
pub proof fn crossings_hand_the_pointer_over(from: Session, to: Session, t: Transfer, now: u64)
    requires
        from.switch is Some,
        to.switch is Some,
        t.entry_x < 0x8000_0000,
        t.entry_y < 0x8000_0000,
    ensures
        from.outgoing_spec(LocalEvent::Crossed(t)) matches Some(msg) && {
            &&& to.response(msg, now) == (Action::MoveCursor {
                x: t.entry_x as i32,
                y: t.entry_y as i32,
            })
            &&& to.after(msg).switch matches Some(s)
            &&& s.owning && !s.armed
            &&& s.cursor_x == t.entry_x && s.cursor_y == t.entry_y
        },
{
}

/// A greeting tells a side the size of its peer's screen, for switching and for capture, and asks
/// for nothing.
pub proof fn greetings_tell_the_geometry(s: Session, msg: Message, now: u64)
    ensures
        msg matches Message::Hello { screen_w, screen_h, .. } ==> {
            let next = s.after(msg);
            &&& s.response(msg, now) == Action::Nothing
            &&& next.mac_w == screen_w && next.mac_h == screen_h
            &&& next.switch is Some <==> s.switch is Some
            &&& next.switch matches Some(n) ==> n.peer_w == screen_w && n.peer_h == screen_h
                && n.owning == s.switch->0.owning && n.armed == s.switch->0.armed && n.side
                == s.switch->0.side && n.my_w == s.switch->0.my_w && n.my_h == s.switch->0.my_h
            &&& next.is_client == s.is_client && next.inject == s.inject
        },
{
}

/// A heartbeat is answered with its own time; an answer gives the time since, and none where the
/// clock was set back. Neither changes the session.
pub proof fn heartbeats_are_answered(s: Session, t: u64, now: u64)
    ensures
        s.response(Message::Heartbeat { t }, now) == Action::Reply(Message::HeartbeatAck { t }),
        t <= now ==> s.response(Message::HeartbeatAck { t }, now) == (Action::RoundTrip {
            ms: (now - t) as u64,
        }),
        t > now ==> s.response(Message::HeartbeatAck { t }, now) == (Action::RoundTrip { ms: 0 }),
        s.after(Message::Heartbeat { t }) == s,
        s.after(Message::HeartbeatAck { t }) == s,
{
}

/// Input and cursor states are ignored where they are not meant to arrive, and change no session.
pub proof fn strays_are_ignored(s: Session, ev: InputEvent, c: CursorState, now: u64)
    ensures
        !s.inject ==> s.response(Message::Input(ev), now) == Action::Nothing,
        !s.is_client ==> s.response(Message::CursorState(c), now) == Action::Nothing,
        s.after(Message::Input(ev)) == s,
        s.after(Message::CursorState(c)) == s,
{
}

/// In an open session what happens on a side is sent as the session says, at once; a message that
/// is not for sending is passed over. Once it is sent the session is open again.
pub proof fn open_sessions_send_what_happens(c: Course, event: LocalEvent)
    requires
        c.phase is Open,
    ensures
        ({
            let (next, step) = c.advanced(Input::Local(event));
            &&& next.session == c.session
            &&& c.session.outgoing_spec(event) matches Some(msg) ==> step == Step::Send(msg)
                && next.phase is Reporting
            &&& c.session.outgoing_spec(event) is None ==> step is Wait && next == c
            &&& step is Send ==> next.advanced(Input::Sent) == (c, Step::Wait)
        }),
{
}

/// In an open session what arrives is done, or answered, as the session says, and changes the
/// session as it says.
pub proof fn open_sessions_do_what_arrives(c: Course, msg: Message, now: u64)
    requires
        c.phase is Open,
    ensures
        ({
            let (next, step) = c.advanced(Input::Received { msg, now });
            &&& next.session == c.session.after(msg)
            &&& msg is Heartbeat ==> step is Send && next.phase is Replying
            &&& msg matches Message::Heartbeat { t } ==> step == Step::Send(
                Message::HeartbeatAck { t },
            )
            &&& !(msg is Heartbeat) ==> step == Step::Perform(c.session.response(msg, now))
                && next.phase is Open
        }),
{
}

/// What ends a session: in an open one that nothing more can be received; while something is being
/// sent, that it cannot be. It ends with an error where that was the greeting or a reply, and
/// without one otherwise. Nothing else ends it.
pub proof fn failures_end_sessions(c: Course, input: Input)
    ensures
        ({
            let (next, step) = c.advanced(input);
            &&& step is End <==> (c.phase is Open && input is ReceiveFailed) || (input is SendFailed
                && (c.phase is Greeting || c.phase is Reporting || c.phase is Replying))
            &&& step is End ==> next.phase is Ended
            &&& step matches Step::End { failed } ==> failed == (c.phase is Greeting
                || c.phase is Replying)
            &&& next.phase is Ended ==> step is End || c.phase is Ended
            &&& (c.phase is Greeting || c.phase is Reporting || c.phase is Replying)
                && input is Sent ==> next.phase is Open && step is Wait
        }),
{
}

/// Two open sessions: what is captured on the server is sent, and what the client is to do about it
/// is to inject that event.
pub proof fn captured_events_travel(server: Course, client: Course, ev: InputEvent, now: u64)
    requires
        server.phase is Open,
        client.phase is Open,
        !server.session.is_client,
        server.session.switch is None,
        client.session.inject,
    ensures
        server.advanced(Input::Local(LocalEvent::Captured(CaptureMsg::Input(ev)))).1 == Step::Send(
            Message::Input(ev),
        ),
        client.advanced(Input::Received { msg: Message::Input(ev), now }).1 == Step::Perform(
            Action::Inject(ev),
        ),
{
}

/// A key pressed on a Windows server is typed on a Mac: the round in which it goes down has an
/// event of it, the server sends that event, and the Mac posts its own key of the same name down.
pub proof fn a_key_goes_from_windows_to_mac(
    capture: CaptureState,
    poll: Reading,
    server: Session,
    client: Session,
    pointer: MacPointer,
    now: u64,
    vk: u16,
    kc: u16,
    h: u16,
) -> (i: int)
    requires
        capture.well_formed(),
        poll.well_formed(),
        !capture.opts.m4_mode,
        vk < 256,
        !capture.prev_keys[vk as int],
        poll.keys[vk as int] < 0,
        keycodes::vk_names(vk, h),
        keycodes::mac::mac_key_names(kc, h),
        !server.is_client,
        server.switch is None,
        client.inject,
    ensures
        0 <= i < capture.events(poll).len(),
        server.outgoing_spec(LocalEvent::Captured(capture.events(poll)[i])) matches Some(msg) && (
        client.response(msg, now) matches Action::Inject(ev) && (pointer.actions(ev) matches Ok(
            actions,
        ) && actions.len() >= 1 && actions[0] == (MacAction::PostKey { keycode: kc, down: true }))),
{
    let i = crate::laws::capture::key_edges_are_reported(
        capture.prev_keys,
        poll.keys,
        256,
        vk as int,
        h,
    );
    crate::laws::capture::edges_are_forwarded_where_the_cursor_is(capture, poll);
    crate::laws::injection::macos_injects_every_known_key(pointer, kc, h);
    let keys = windows::key_events(capture.prev_keys, poll.keys, 256);
    assert(capture.edges(poll)[i] == keys[i]);
    assert(capture.events(poll)[i] == keys[i]);
    i
}

/// A transfer places the cursor at its entry point, taken as a pair of 32-bit coordinates, on this
/// machine, which takes the pointer and is not armed; everything else stays as it is. A greeting
/// changes the size of the peer's screen, and nothing else.
pub proof fn messages_change_what_they_are_about(s: Session, t: Transfer, msg: Message, now: u64)
    ensures
        s.switch matches Some(old) ==> {
            let next = s.after(Message::Transfer(t)).switch->0;
            &&& s.response(Message::Transfer(t), now) == (Action::MoveCursor {
                x: next.cursor_x,
                y: next.cursor_y,
            })
            &&& (t.entry_x - next.cursor_x) % 0x1_0000_0000 == 0
            &&& (t.entry_y - next.cursor_y) % 0x1_0000_0000 == 0
            &&& s.after(Message::Transfer(t)) == (Session {
                switch: Some(
                    Switch {
                        owning: true,
                        armed: false,
                        cursor_x: next.cursor_x,
                        cursor_y: next.cursor_y,
                        ..old
                    },
                ),
                ..s
            })
        },
        s.switch is None ==> s.after(Message::Transfer(t)) == s && s.response(
            Message::Transfer(t),
            now,
        ) == Action::Nothing,
        msg matches Message::Hello { screen_w, screen_h, .. } ==> {
            let next = s.after(msg);
            &&& next == (Session { switch: next.switch, mac_w: screen_w, mac_h: screen_h, ..s })
            &&& s.switch is None ==> next.switch is None
            &&& s.switch matches Some(old) ==> next.switch == Some(
                Switch { peer_w: screen_w, peer_h: screen_h, ..old },
            )
        },
{
}

/// While a message is being sent nothing but its outcome counts, in an open session the outcome of
/// a message does not, and in one that has ended nothing does. What is sent, or not, never changes
/// what the session has learnt.
pub proof fn inputs_count_in_their_phase(c: Course, input: Input)
    ensures
        ({
            let (next, step) = c.advanced(input);
            let outcome = input is Sent || input is SendFailed;
            &&& (c.phase is Greeting || c.phase is Reporting || c.phase is Replying) && !outcome
                ==> next == c && step is Wait
            &&& c.phase is Open && outcome ==> next == c && step is Wait
            &&& c.phase is Ended ==> next == c && step is Wait
            &&& !(input is Received) ==> next.session == c.session
        }),
{
}

/// The test events: each of a, b, 1, Tab and Enter is pressed and, in reverse order, released; the
/// mouse moves; and its left button is pressed and released.
pub proof fn test_events_undo_themselves(i: int)
    ensures
        ({
            let s = transport::test_sequence();
            let keys = seq![0x04u16, 0x05, 0x1E, 0x2B, 0x28];
            &&& s.len() == 13
            &&& 0 <= i < 5 ==> s[i] == InputEvent::Key(
                KeyEvent { hid: keys[i], state: KeyState::Pressed },
            )
            &&& 0 <= i < 5 ==> s[9 - i] == InputEvent::Key(
                KeyEvent { hid: keys[i], state: KeyState::Released },
            )
            &&& s[10] == InputEvent::Mouse(
                MouseEvent { dx: 24, dy: 12, button: None, state: None },
            )
            &&& s[11] == crate::laws::capture::tapped(MouseButton::Left, KeyState::Pressed)
            &&& s[12] == crate::laws::capture::tapped(MouseButton::Left, KeyState::Released)
        }),
{
}

/// The pace: a heartbeat every three seconds, and the test events half a second after the handshake,
/// a tenth of a second apart.
pub proof fn sessions_keep_their_pace()
    ensures
        transport::HEARTBEAT_SECS == 3,
        transport::TEST_DELAY_MS == 500,
        transport::TEST_STEP_MS == 100,
        windows::POLL_MS == 5,
        crate::switch::POLL_MS == 5,
        crate::switch::IDLE_MS == 50,
{
}

/// A server captures where it is asked to and does not switch, with its own screen and the mode it
/// is asked for; it injects nothing. With switching it owns the pointer at first. Test events are
/// sent where they are asked for, but not with switching.
pub proof fn servers_start_as_asked(
    enable_capture: bool,
    test_input: bool,
    switch_mode: bool,
    side: Side,
    m4_mode: bool,
    my_w: u32,
    my_h: u32,
)
    ensures
        ({
            let r = transport::server_start(
                enable_capture,
                test_input,
                switch_mode,
                side,
                m4_mode,
                my_w,
                my_h,
            );
            &&& !r.session.is_client && !r.session.inject
            &&& r.session.mac_w == 0 && r.session.mac_h == 0
            &&& r.session.well_formed()
            &&& r.session.switch is Some <==> switch_mode
            &&& r.session.switch matches Some(s) ==> s.owning && s.armed && s.side == side && s.my_w
                == my_w && s.my_h == my_h && s.peer_w == 0 && s.peer_h == 0
            &&& r.capture is Some <==> enable_capture && !switch_mode
            &&& r.capture matches Some(o) ==> o.win_w == my_w && o.win_h == my_h && o.mac_w == 0
                && o.mac_h == 0 && o.m4_mode == m4_mode
            &&& r.test_input <==> test_input && !switch_mode
        }),
{
}

/// A client injects where it is asked to and does not switch; with switching it does not own the
/// pointer at first.
pub proof fn clients_start_as_asked(
    enable_inject: bool,
    switch_mode: bool,
    side: Side,
    my_w: u32,
    my_h: u32,
)
    ensures
        ({
            let r = transport::client_start(enable_inject, switch_mode, side, my_w, my_h);
            &&& r.is_client
            &&& r.inject <==> enable_inject && !switch_mode
            &&& r.mac_w == 0 && r.mac_h == 0
            &&& r.well_formed()
            &&& r.switch is Some <==> switch_mode
            &&& r.switch matches Some(s) ==> !s.owning && !s.armed && s.side == side && s.my_w
                == my_w && s.my_h == my_h && s.peer_w == 0 && s.peer_h == 0
        }),
{
}

/// The program serves where it is asked to, else connects where it is asked to, and else explains
/// itself; seamless mode and switching exclude each other. The peer sits where it is said to sit, by
/// default on a server's right and a client's left. Where the program does not run it exits with
/// status 2.
pub proof fn the_command_line_decides(
    server: bool,
    client: bool,
    switch: bool,
    m4: bool,
    side: Option<Side>,
)
    ensures
        ({
            let r = launch::launched(server, client, switch, m4, side);
            &&& r is Contradiction <==> m4 && switch
            &&& r is Server <==> server && !(m4 && switch)
            &&& r is Client <==> client && !server && !(m4 && switch)
            &&& r matches Launch::Server { side: s } ==> (side is None ==> s is Right) && (
            side matches Some(asked) ==> s == asked)
            &&& r matches Launch::Client { side: s } ==> (side is None ==> s is Left) && (
            side matches Some(asked) ==> s == asked)
        }),
        launch::EXIT_USAGE == 2,
{
}

} // verus!

//! Frames and the session: what is sent, what is accepted, and what a message makes a side do.

use vstd::prelude::*;
use vstd::string::StringExecFns;

use crate::input::event::{InputEvent, KeyEvent, KeyState, MouseButton, MouseEvent};
use crate::input::{CaptureMsg, CaptureOptions};
use crate::net::crypto::{Crypter, CryptoError};
use crate::net::protocol::{CursorState, Message, Transfer};
use crate::numeric::{push_be, read_be};
use crate::switch::{Side, Switch};
use crate::text::push_decimal;

verus! {

/// Why a frame could not be received.
#[derive(Debug, Clone, Copy, PartialEq, Eq, Structural)]
pub enum FrameError {
    /// The announced length leaves no room for the counter.
    TooSmall { len: usize },
    Crypto(CryptoError),
}

impl FrameError {
    pub open spec fn text(self) -> Seq<char> {
        match self {
            FrameError::TooSmall { len } => "frame too small: "@ + crate::text::decimal(len as nat),
            FrameError::Crypto(e) => e.text(),
        }
    }

    /// The error in words.
    pub fn describe(&self) -> (r: String)
        ensures
            r@ == self.text(),
    {
        match self {
            FrameError::TooSmall { len } => {
                let mut s = String::from_str("frame too small: ");
                push_decimal(&mut s, *len as u128);
                s
            },
            FrameError::Crypto(e) => e.describe(),
        }
    }
}

/// The body of a frame: the counter in eight bytes, then the ciphertext with its tag.
pub open spec fn frame_body(ctr: u64, ciphertext: Seq<u8>) -> Seq<u8> {
    crate::numeric::be_bytes(ctr as nat, 8) + ciphertext
}

/// A frame: the length of the body in four bytes, big endian, then the body. Of a length that
/// takes more than four bytes the low ones are written.
pub open spec fn frame(ctr: u64, ciphertext: Seq<u8>) -> Seq<u8> {
    crate::numeric::be_bytes((8 + ciphertext.len()) as nat, 4) + frame_body(ctr, ciphertext)
}

/// Writes a frame.
pub fn encode_frame(ctr: u64, ciphertext: &[u8]) -> (r: Vec<u8>)
    requires
        ciphertext@.len() + 12 <= usize::MAX,
    ensures
        r@ == frame(ctr, ciphertext@),
{
    let mut out: Vec<u8> = Vec::with_capacity(4 + 8 + ciphertext.len());
    push_be(&mut out, (8 + ciphertext.len()) as u64, 4);
    push_be(&mut out, ctr, 8);
    out.extend_from_slice(ciphertext);
    assert(out@ =~= frame(ctr, ciphertext@));
    out
}

/// Encrypts a serialised message and frames it.
///
/// A receiver with the same key, at any point at which it accepts the counter, obtains the
/// message from the body of the frame.
pub fn send_msg(crypter: &mut Crypter, plaintext: &[u8]) -> (r: Vec<u8>)
    requires
        old(crypter)@.send_ctr < u64::MAX,
        crate::net::primitives::sealable(plaintext@.len()),
    ensures
        final(crypter)@ == (crate::net::crypto::Channel {
            send_ctr: (old(crypter)@.send_ctr + 1) as u64,
            ..old(crypter)@
        }),
        r@ == sent_frame(old(crypter)@, plaintext@),
        r@.len() == plaintext@.len() + 28,
        forall|peer: crate::net::crypto::Channel|
            peer.key == old(crypter)@.key && peer.accepts(old(crypter)@.send_ctr)
                ==> #[trigger] received(peer, r@.skip(4)) == Ok::<Seq<u8>, FrameError>(plaintext@),
{
    let (ctr, ciphertext) = crypter.encrypt(plaintext);
    let out: Vec<u8> = encode_frame(ctr, ciphertext.as_slice());
    proof {
        let ghost body = frame_body(ctr, ciphertext@);
        crate::numeric::lemma_be_bytes_len((8 + ciphertext@.len()) as nat, 4);
        assert(out@.skip(4) =~= body);
        lemma_body_parts(ctr, ciphertext@);
    }
    out
}

/// The frame that carries a plaintext as the next message of a channel.
pub open spec fn sent_frame(ch: crate::net::crypto::Channel, plaintext: Seq<u8>) -> Seq<u8> {
    frame(
        ch.send_ctr,
        crate::net::primitives::aes256gcm_seal(
            ch.key,
            crate::net::crypto::frame_nonce(ch.send_ctr),
            plaintext,
        ),
    )
}

proof fn lemma_body_parts(ctr: u64, ciphertext: Seq<u8>)
    ensures
        frame_body(ctr, ciphertext).len() == 8 + ciphertext.len(),
        crate::numeric::be_value(frame_body(ctr, ciphertext).take(8)) == ctr,
        frame_body(ctr, ciphertext).skip(8) == ciphertext,
{
    reveal_with_fuel(crate::numeric::byte_range, 9);
    crate::numeric::be_bytes_round_trip(ctr as nat, 8);
    let body = frame_body(ctr, ciphertext);
    assert(body.take(8) =~= crate::numeric::be_bytes(ctr as nat, 8));
    assert(body.skip(8) =~= ciphertext);
}

/// The length that a frame announces.
pub fn read_u32(header: &[u8; 4]) -> (r: u32)
    ensures
        r == crate::numeric::be_value(header@),
{
    proof {
        reveal_with_fuel(crate::numeric::be_value, 5);
    }
    read_be(header.as_slice()) as u32
}

/// The number of bytes to read for the body of a frame with this header.
pub fn body_len(header: &[u8; 4]) -> (r: Result<usize, FrameError>)
    ensures
        match r {
            Ok(len) => len == crate::numeric::be_value(header@) && len >= 8,
            Err(e) => crate::numeric::be_value(header@) < 8 && e == (FrameError::TooSmall {
                len: crate::numeric::be_value(header@) as usize,
            }),
        },
{
    let len: usize = read_u32(header) as usize;
    if len < 8 {
        Err(FrameError::TooSmall { len })
    } else {
        Ok(len)
    }
}

/// What a channel makes of the body of a frame.
pub open spec fn received(ch: crate::net::crypto::Channel, body: Seq<u8>) -> Result<
    Seq<u8>,
    FrameError,
> {
    if body.len() < 8 {
        Err(FrameError::TooSmall { len: body.len() as usize })
    } else {
        match ch.opened(crate::numeric::be_value(body.take(8)) as u64, body.skip(8)) {
            Ok(plaintext) => Ok(plaintext),
            Err(e) => Err(FrameError::Crypto(e)),
        }
    }
}

/// The channel after the body of a frame.
pub open spec fn after_body(ch: crate::net::crypto::Channel, body: Seq<u8>) -> crate::net::crypto::Channel {
    if body.len() < 8 {
        ch
    } else {
        ch.after_receiving(crate::numeric::be_value(body.take(8)) as u64, body.skip(8))
    }
}

/// Decrypts the body of a frame. Returns the serialised message.
pub fn recv_msg(crypter: &mut Crypter, body: &[u8]) -> (r: Result<Vec<u8>, FrameError>)
    ensures
        match r {
            Ok(plaintext) => received(old(crypter)@, body@) == Ok::<Seq<u8>, FrameError>(
                plaintext@,
            ),
            Err(e) => received(old(crypter)@, body@) == Err::<Seq<u8>, FrameError>(e),
        },
        final(crypter)@ == after_body(old(crypter)@, body@),
{
    let len: usize = body.len();
    if len < 8 {
        return Err(FrameError::TooSmall { len });
    }
    let (head, ciphertext) = body.split_at(8);
    proof {
        assert(head@ =~= body@.take(8));
        assert(ciphertext@ =~= body@.skip(8));
    }
    let ctr: u64 = read_be(head);
    match crypter.decrypt(ctr, ciphertext) {
        Ok(plaintext) => Ok(plaintext),
        Err(e) => Err(FrameError::Crypto(e)),
    }
}

/// The header of a frame announces its body: for every message whose frame is shorter than 4 GiB
/// the receiver reads exactly the bytes that the sender wrote.
pub proof fn header_announces_the_body(ctr: u64, ciphertext: Seq<u8>)
    requires
        8 + ciphertext.len() <= u32::MAX,
    ensures
        frame(ctr, ciphertext).len() == 12 + ciphertext.len(),
        crate::numeric::be_value(frame(ctr, ciphertext).take(4)) == frame_body(
            ctr,
            ciphertext,
        ).len(),
        frame(ctr, ciphertext).skip(4) == frame_body(ctr, ciphertext),
{
    reveal_with_fuel(crate::numeric::byte_range, 5);
    let n = (8 + ciphertext.len()) as nat;
    crate::numeric::be_bytes_round_trip(n, 4);
    lemma_body_parts(ctr, ciphertext);
    let f = frame(ctr, ciphertext);
    assert(f.take(4) =~= crate::numeric::be_bytes(n, 4));
    assert(f.skip(4) =~= frame_body(ctr, ciphertext));
}

/// One side of a session.
#[derive(Debug, Clone, Copy, PartialEq, Eq, Structural)]
pub struct Session {
    pub is_client: bool,
    /// Received input is injected here.
    pub inject: bool,
    /// The edge switching controller, in switch mode.
    pub switch: Option<Switch>,
    /// Size of the peer's screen, 0 until the peer has told it.
    pub mac_w: u32,
    pub mac_h: u32,
}

/// A session of a server, and what is started with it.
#[derive(Debug, Clone, Copy, PartialEq, Eq, Structural)]
pub struct ServerStart {
    pub session: Session,
    /// How local input is captured and sent to the peer, if it is.
    pub capture: Option<CaptureOptions>,
    /// The events of `test_events` are sent to the peer.
    pub test_input: bool,
}

/// Something that happened on this side.
#[derive(Debug, Clone, Copy, PartialEq, Eq, Structural)]
pub enum LocalEvent {
    Captured(CaptureMsg),
    /// The pointer left through the seam.
    Crossed(Transfer),
    /// Time for a heartbeat; the clock shows `t` milliseconds.
    Tick { t: u64 },
}

/// What a received message makes this side do.
#[derive(Debug, Clone)]
pub enum Action {
    Nothing,
    Reply(Message),
    /// A heartbeat came back after this many milliseconds.
    RoundTrip { ms: u64 },
    MoveCursor { x: i32, y: i32 },
    Inject(InputEvent),
    ShowCursor(CursorState),
}

/// Seconds between two heartbeats.
pub const HEARTBEAT_SECS: u64 = 3;

/// Milliseconds between the handshake and the test events.
pub const TEST_DELAY_MS: u64 = 500;

/// Milliseconds before each test event.
pub const TEST_STEP_MS: u64 = 100;

/// A server's side of a session, and what is started with it.
pub open spec fn server_start(
    enable_capture: bool,
    test_input: bool,
    switch_mode: bool,
    side: Side,
    m4_mode: bool,
    my_w: u32,
    my_h: u32,
) -> ServerStart {
    ServerStart {
        session: Session {
            is_client: false,
            inject: false,
            switch: if switch_mode {
                Some(Switch::initial(side, true, my_w, my_h))
            } else {
                None
            },
            mac_w: 0,
            mac_h: 0,
        },
        capture: if enable_capture && !switch_mode {
            Some(CaptureOptions { win_w: my_w, win_h: my_h, mac_w: 0, mac_h: 0, m4_mode })
        } else {
            None
        },
        test_input: test_input && !switch_mode,
    }
}

/// A client's side of a session.
pub open spec fn client_start(
    enable_inject: bool,
    switch_mode: bool,
    side: Side,
    my_w: u32,
    my_h: u32,
) -> Session {
    Session {
        is_client: true,
        inject: enable_inject && !switch_mode,
        switch: if switch_mode {
            Some(Switch::initial(side, false, my_w, my_h))
        } else {
            None
        },
        mac_w: 0,
        mac_h: 0,
    }
}

/// Starts the server's side of a session. In switch mode the server owns the pointer at first,
/// and captures nothing.
pub fn session_server(
    enable_capture: bool,
    test_input: bool,
    switch_mode: bool,
    side: Side,
    m4_mode: bool,
    my_w: u32,
    my_h: u32,
) -> (r: ServerStart)
    ensures
        r.session == (Session {
            is_client: false,
            inject: false,
            switch: if switch_mode {
                Some(Switch::initial(side, true, my_w, my_h))
            } else {
                None
            },
            mac_w: 0,
            mac_h: 0,
        }),
        r.capture == if enable_capture && !switch_mode {
            Some(CaptureOptions { win_w: my_w, win_h: my_h, mac_w: 0, mac_h: 0, m4_mode })
        } else {
            None
        },
        r.test_input == (test_input && !switch_mode),
        r.session.well_formed(),
        !switch_mode ==> forall|ev: InputEvent|
            #[trigger] r.session.outgoing_spec(LocalEvent::Captured(CaptureMsg::Input(ev))) == Some(
                Message::Input(ev),
            ),
        switch_mode ==> forall|t: Transfer|
            #[trigger] r.session.outgoing_spec(LocalEvent::Crossed(t)) == Some(Message::Transfer(t)),
        r.session.switch is Some <==> switch_mode,
        r.session.switch matches Some(s) ==> s.owning && s.armed && s.side == side && s.my_w == my_w
            && s.my_h == my_h,
        r.capture matches Some(opts) ==> opts.win_w == my_w && opts.win_h == my_h && opts.m4_mode
            == m4_mode,
        r.capture is Some <==> enable_capture && !switch_mode,
        r == server_start(enable_capture, test_input, switch_mode, side, m4_mode, my_w, my_h),
{
    let switch: Option<Switch> = if switch_mode {
        Some(Switch::new(side, true, my_w, my_h))
    } else {
        None
    };
    ServerStart {
        session: Session { is_client: false, inject: false, switch, mac_w: 0, mac_h: 0 },
        capture: if !switch_mode && enable_capture {
            Some(CaptureOptions { win_w: my_w, win_h: my_h, mac_w: 0, mac_h: 0, m4_mode })
        } else {
            None
        },
        test_input: !switch_mode && test_input,
    }
}

/// Starts the client's side of a session. In switch mode the client does not own the pointer at
/// first, and injects nothing.
pub fn session_client(
    enable_inject: bool,
    switch_mode: bool,
    side: Side,
    my_w: u32,
    my_h: u32,
) -> (r: Session)
    requires
        switch_mode ==> crate::switch::last_pixel_fits(
            side.facing(),
            crate::switch::extent(my_w),
            crate::switch::extent(my_h),
        ),
    ensures
        r == (Session {
            is_client: true,
            inject: enable_inject && !switch_mode,
            switch: if switch_mode {
                Some(Switch::initial(side, false, my_w, my_h))
            } else {
                None
            },
            mac_w: 0,
            mac_h: 0,
        }),
        r.well_formed(),
        enable_inject && !switch_mode ==> forall|ev: InputEvent, now: u64|
            #[trigger] r.response(Message::Input(ev), now) == Action::Inject(ev),
        !enable_inject || switch_mode ==> forall|ev: InputEvent, now: u64|
            #[trigger] r.response(Message::Input(ev), now) == Action::Nothing,
        switch_mode ==> forall|t: Transfer|
            #[trigger] r.outgoing_spec(LocalEvent::Crossed(t)) == Some(Message::Transfer(t)),
        r.switch is Some <==> switch_mode,
        r.switch matches Some(s) ==> !s.owning && !s.armed && s.side == side && s.my_w == my_w
            && s.my_h == my_h,
        r == client_start(enable_inject, switch_mode, side, my_w, my_h),
{
    let switch: Option<Switch> = if switch_mode {
        Some(Switch::new(side, false, my_w, my_h))
    } else {
        None
    };
    Session { is_client: true, inject: !switch_mode && enable_inject, switch, mac_w: 0, mac_h: 0 }
}

/// The first message of a side.
pub fn hello(name: &str, platform: &str, screen_w: u32, screen_h: u32) -> (r: Message)
    ensures
        r matches Message::Hello { name: n, platform: p, screen_w: w, screen_h: h } && n@ == name@
            && p@ == platform@ && w == screen_w && h == screen_h,
{
    Message::Hello {
        name: String::from_str(name),
        platform: String::from_str(platform),
        screen_w,
        screen_h,
    }
}

impl Session {
    /// In switch mode nothing is injected.
    pub open spec fn well_formed(self) -> bool {
        &&& self.switch is Some ==> !self.inject
        &&& self.switch matches Some(s) ==> s.well_formed()
    }

    /// What is sent to the peer when something happens on this side.
    pub open spec fn outgoing_spec(self, event: LocalEvent) -> Option<Message> {
        match event {
            LocalEvent::Captured(msg) => if self.is_client || self.switch is Some {
                None
            } else {
                match msg {
                    CaptureMsg::Input(ev) => Some(Message::Input(ev)),
                    CaptureMsg::CursorState { on_mac, x, y } => Some(
                        Message::CursorState(CursorState { on_mac, x, y }),
                    ),
                }
            },
            LocalEvent::Crossed(t) => if self.switch is Some {
                Some(Message::Transfer(t))
            } else {
                None
            },
            LocalEvent::Tick { t } => Some(Message::Heartbeat { t }),
        }
    }

    /// The message that something on this side makes it send: captured input where the server is
    /// not in switch mode, a crossing in switch mode, and heartbeats always.
    pub fn outgoing(&self, event: LocalEvent) -> (r: Option<Message>)
        ensures
            r == self.outgoing_spec(event),
    {
        match event {
            LocalEvent::Captured(msg) => if self.is_client || self.switch.is_some() {
                None
            } else {
                match msg {
                    CaptureMsg::Input(ev) => Some(Message::Input(ev)),
                    CaptureMsg::CursorState { on_mac, x, y } => Some(
                        Message::CursorState(CursorState { on_mac, x, y }),
                    ),
                }
            },
            LocalEvent::Crossed(t) => if self.switch.is_some() {
                Some(Message::Transfer(t))
            } else {
                None
            },
            LocalEvent::Tick { t } => Some(Message::Heartbeat { t }),
        }
    }

    /// This side after a message.
    pub open spec fn after(self, msg: Message) -> Session {
        match msg {
            Message::Hello { screen_w, screen_h, .. } => Session {
                switch: match self.switch {
                    Some(s) => Some(Switch { peer_w: screen_w, peer_h: screen_h, ..s }),
                    None => None,
                },
                mac_w: screen_w,
                mac_h: screen_h,
                ..self
            },
            Message::Transfer(t) => Session {
                switch: match self.switch {
                    Some(s) => Some(s.received(t.entry_x, t.entry_y)),
                    None => None,
                },
                ..self
            },
            _ => self,
        }
    }

    /// What a message makes this side do, when the clock shows `now` milliseconds.
    pub open spec fn response(self, msg: Message, now: u64) -> Action {
        match msg {
            Message::Heartbeat { t } => Action::Reply(Message::HeartbeatAck { t }),
            Message::HeartbeatAck { t } => Action::RoundTrip {
                ms: if t <= now {
                    (now - t) as u64
                } else {
                    0
                },
            },
            Message::Hello { .. } => Action::Nothing,
            Message::Transfer(t) => if self.switch is Some {
                Action::MoveCursor {
                    x: crate::switch::extent(t.entry_x) as i32,
                    y: crate::switch::extent(t.entry_y) as i32,
                }
            } else {
                Action::Nothing
            },
            Message::Input(ev) => if self.inject {
                Action::Inject(ev)
            } else {
                Action::Nothing
            },
            Message::CursorState(c) => if self.is_client {
                Action::ShowCursor(c)
            } else {
                Action::Nothing
            },
        }
    }

    /// Handles a received message. No message ends the session.
    pub fn handle_msg(&mut self, msg: Message, now: u64) -> (r: Action)
        ensures
            r == old(self).response(msg, now),
            *final(self) == old(self).after(msg),
            old(self).well_formed() ==> final(self).well_formed(),
    {
        match msg {
            Message::Heartbeat { t } => Action::Reply(Message::HeartbeatAck { t }),
            Message::HeartbeatAck { t } => {
                let ms: u64 = if t <= now { now - t } else { 0 };
                Action::RoundTrip { ms }
            },
            Message::Hello { name: _, platform: _, screen_w, screen_h } => {
                if let Some(mut s) = self.switch {
                    s.set_peer_geom(screen_w, screen_h);
                    self.switch = Some(s);
                }
                self.mac_w = screen_w;
                self.mac_h = screen_h;
                Action::Nothing
            },
            Message::Transfer(t) => {
                if let Some(mut s) = self.switch {
                    let (x, y) = s.on_receive(t.entry_x, t.entry_y);
                    self.switch = Some(s);
                    Action::MoveCursor { x, y }
                } else {
                    Action::Nothing
                }
            },
            Message::Input(ev) => if self.inject {
                Action::Inject(ev)
            } else {
                Action::Nothing
            },
            Message::CursorState(c) => if self.is_client {
                Action::ShowCursor(c)
            } else {
                Action::Nothing
            },
        }
    }
}

/// A key of the test sequence.
pub open spec fn test_key(hid: u16, state: KeyState) -> InputEvent {
    InputEvent::Key(KeyEvent { hid, state })
}

/// The test sequence: a, b, 1, Tab and Enter go down and come up in reverse order, the mouse
/// moves, and its left button is clicked.
pub open spec fn test_sequence() -> Seq<InputEvent> {
    seq![
        test_key(0x04, KeyState::Pressed),
        test_key(0x05, KeyState::Pressed),
        test_key(0x1E, KeyState::Pressed),
        test_key(0x2B, KeyState::Pressed),
        test_key(0x28, KeyState::Pressed),
        test_key(0x28, KeyState::Released),
        test_key(0x2B, KeyState::Released),
        test_key(0x1E, KeyState::Released),
        test_key(0x05, KeyState::Released),
        test_key(0x04, KeyState::Released),
        InputEvent::Mouse(MouseEvent { dx: 24, dy: 12, button: None, state: None }),
        InputEvent::Mouse(
            MouseEvent {
                dx: 0,
                dy: 0,
                button: Some(MouseButton::Left),
                state: Some(KeyState::Pressed),
            },
        ),
        InputEvent::Mouse(
            MouseEvent {
                dx: 0,
                dy: 0,
                button: Some(MouseButton::Left),
                state: Some(KeyState::Released),
            },
        ),
    ]
}

fn key(hid: u16, state: KeyState) -> (r: InputEvent)
    ensures
        r == test_key(hid, state),
{
    InputEvent::Key(KeyEvent { hid, state })
}

fn left_button(state: KeyState) -> (r: InputEvent)
    ensures
        r == InputEvent::Mouse(
            MouseEvent { dx: 0, dy: 0, button: Some(MouseButton::Left), state: Some(state) },
        ),
{
    InputEvent::Mouse(
        MouseEvent { dx: 0, dy: 0, button: Some(MouseButton::Left), state: Some(state) },
    )
}

/// The events by which a server tests the way to the client without anyone at its keyboard.
pub fn test_events() -> (r: Vec<InputEvent>)
    ensures
        r@ == test_sequence(),
{
    let mut v: Vec<InputEvent> = Vec::new();
    v.push(key(0x04, KeyState::Pressed));
    v.push(key(0x05, KeyState::Pressed));
    v.push(key(0x1E, KeyState::Pressed));
    v.push(key(0x2B, KeyState::Pressed));
    v.push(key(0x28, KeyState::Pressed));
    v.push(key(0x28, KeyState::Released));
    v.push(key(0x2B, KeyState::Released));
    v.push(key(0x1E, KeyState::Released));
    v.push(key(0x05, KeyState::Released));
    v.push(key(0x04, KeyState::Released));
    v.push(InputEvent::Mouse(MouseEvent { dx: 24, dy: 12, button: None, state: None }));
    v.push(left_button(KeyState::Pressed));
    v.push(left_button(KeyState::Released));
    assert(v@ =~= test_sequence());
    v
}

/// In switch mode no input travels: a side never sends captured input or cursor states, whatever
/// happens on it, and never injects what it receives.
pub proof fn switch_mode_forwards_no_input(s: Session, event: LocalEvent, msg: Message, now: u64)
    requires
        s.well_formed(),
        s.switch is Some,
    ensures
        s.outgoing_spec(event) matches Some(m) ==> !(m is Input || m is CursorState),
        !(s.response(msg, now) is Inject),
        s.after(msg).switch is Some,
        s.after(msg).well_formed(),
{
}

/// Outside switch mode the pointer never changes hands: no transfer is sent, and one that
/// arrives is ignored.
pub proof fn transfers_need_switch_mode(s: Session, event: LocalEvent, t: Transfer, now: u64)
    requires
        s.switch is None,
    ensures
        s.outgoing_spec(event) matches Some(m) ==> !(m is Transfer),
        s.response(Message::Transfer(t), now) == Action::Nothing,
        s.after(Message::Transfer(t)) == s,
{
}

/// A heartbeat is answered with its own timestamp, so that its sender measures the time until
/// the answer arrived.
pub proof fn heartbeat_measures_the_round_trip(
    sender: Session,
    peer: Session,
    sent: u64,
    peer_clock: u64,
    now: u64,
)
    requires
        sent <= now,
    ensures
        sender.outgoing_spec(LocalEvent::Tick { t: sent }) matches Some(beat) && (peer.response(
            beat,
            peer_clock,
        ) matches Action::Reply(ack) && sender.response(ack, now) == (Action::RoundTrip {
            ms: (now - sent) as u64,
        })),
{
}

} // verus!

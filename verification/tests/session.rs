use crosslink::input::event::{InputEvent, KeyEvent, KeyState};
use crosslink::input::{CaptureMsg, CaptureOptions};
use crosslink::launch::{launch, Launch};
use crosslink::net::crypto::{
    client_handshake, client_handshake_with, derive_key, eq_ignore_ascii_case, fingerprint,
    load_or_create_server_key, public_key_and_fingerprint, server_handshake,
    server_key_from_bytes, verify_server, write_colon_hex, CorruptIdentity, Crypter, CryptoError,
    StaticSecret,
};
use crosslink::net::course::{begin, Course, Input, Phase, Step};
use crosslink::net::protocol::{CursorState, Message, Transfer};
use crosslink::net::transport::{
    body_len, encode_frame, hello, read_u32, recv_msg, send_msg, session_client, session_server,
    Action, FrameError, LocalEvent, Session,
};
use crosslink::switch::Side;

const FP: &str = "AA:A8:FF:F7:03:B5:0B:22:97:F4:F6:E1:35:08:F7:24:20:D9:6F:D0:1E:BB:84:CB:07:44:49:CA:AE:F6:40:41";

fn unhex(s: &str) -> Vec<u8> {
    (0..s.len() / 2).map(|i| u8::from_str_radix(&s[2 * i..2 * i + 2], 16).unwrap()).collect()
}

fn array(s: &str) -> [u8; 32] {
    unhex(s).try_into().unwrap()
}

fn counting(from: u8) -> StaticSecret {
    let mut bytes = [0u8; 32];
    for i in 0..32 {
        bytes[i] = from + i as u8;
    }
    StaticSecret { bytes }
}

fn server_pub() -> [u8; 32] {
    array("07a37cbc142093c8b755dc1b10e86cb426374ad16aa853ed0bdfc0b2b86d1c7c")
}

fn client_pub() -> [u8; 32] {
    array("5714769d116bf76436ae74bc793d2c30ad1903c59ac5273805c7e2698b410c36")
}

fn session_key() -> [u8; 32] {
    array("873970e4926357ec98e2b0eb1ecf0503dab40ae4a2e83408a9e774280c0089fc")
}

fn input(hid: u16) -> InputEvent {
    InputEvent::Key(KeyEvent { hid, state: KeyState::Pressed })
}

#[test]
fn public_key_has_a_known_fingerprint() {
    let (public, fp) = public_key_and_fingerprint(&counting(1));
    assert_eq!(public.bytes, server_pub());
    assert_eq!(fp, FP);
    assert_eq!(fingerprint(&server_pub()), FP);
    assert_eq!(fp.len(), 95);
}

#[test]
fn colon_hexadecimal() {
    assert_eq!(write_colon_hex(&[]), "");
    assert_eq!(write_colon_hex(&[0xAB]), "AB");
    assert_eq!(write_colon_hex(&[0xAB, 0x0C, 0xFF]), "AB:0C:FF");
}

#[test]
fn derived_key_is_a_known_one() {
    let shared = array("c9ea6a3f79a000b60b076d4afc990b272f3f0b5aaa3f0b8713c209273e363863");
    assert_eq!(derive_key(&shared), session_key());
}

#[test]
fn both_sides_derive_the_same_channel() {
    let client = match client_handshake_with(&server_pub(), Some(FP), &counting(101)) {
        Ok(hello) => hello,
        Err(e) => panic!("{}", e.describe()),
    };
    assert_eq!(client.public.bytes, client_pub());
    assert_eq!(client.fingerprint, FP);
    let (mut server, fp) = server_handshake(&counting(1), &client.public.bytes);
    assert_eq!(fp, FP);
    let mut client = client.crypter;
    let (ctr, ct) = server.encrypt(b"hello crosslink");
    assert_eq!(ctr, 0);
    assert_eq!(ct, unhex("b57e76e5ba922eded6a10ecb301efd0c3b4bbad57008542e6d915f7c747989"));
    assert_eq!(client.decrypt(ctr, &ct), Ok(b"hello crosslink".to_vec()));
    let (ctr, ct) = client.encrypt(b"back");
    assert_eq!(server.decrypt(ctr, &ct), Ok(b"back".to_vec()));
}

#[test]
fn a_fresh_client_key_agrees_too() {
    let first = client_handshake(&server_pub(), None).ok().unwrap();
    let second = client_handshake(&server_pub(), Some(&FP.to_lowercase())).ok().unwrap();
    assert_ne!(first.public.bytes, second.public.bytes);
    for hello in [first, second] {
        assert_eq!(hello.fingerprint, FP);
        let (mut server, _) = server_handshake(&counting(1), &hello.public.bytes);
        let mut client = hello.crypter;
        let (ctr, ct) = client.encrypt(b"ping");
        assert_eq!(server.decrypt(ctr, &ct), Ok(b"ping".to_vec()));
    }
}

#[test]
fn a_wrong_fingerprint_is_refused() {
    let e = client_handshake(&server_pub(), Some("AB:CD")).err().unwrap();
    assert_eq!(
        e.describe(),
        format!("server fingerprint mismatch!\n  expected: AB:CD\n  received: {}", FP)
    );
    assert!(verify_server(&client_pub(), Some(FP)).is_err());
    assert_eq!(verify_server(&server_pub(), None).ok().unwrap(), FP);
    assert!(client_handshake_with(&client_pub(), Some(FP), &counting(3)).is_err());
}

#[test]
fn case_is_ignored_in_ascii_only() {
    assert!(eq_ignore_ascii_case("aB:0f", "Ab:0F"));
    assert!(!eq_ignore_ascii_case("ab", "ab:"));
    assert!(!eq_ignore_ascii_case("ab", "ac"));
    assert!(!eq_ignore_ascii_case("[", "{"));
    assert!(!eq_ignore_ascii_case("Ä", "ä"));
    assert!(eq_ignore_ascii_case("ä", "ä"));
}

#[test]
fn counters_grow_and_nonces_differ() {
    let mut c = Crypter::new(&session_key());
    let (a, first) = c.encrypt(b"hello crosslink");
    let (b, second) = c.encrypt(b"hello crosslink");
    assert_eq!((a, b), (0, 1));
    assert_ne!(first, second);
    assert_eq!(second, unhex("77a875b04b62c9b18be2d156fd77acff3cf2bd5ea740a2e2a1444cfb905fc1"));
    assert_eq!(first.len(), 15 + 16);
}

#[test]
fn ordinary_frames_can_be_encrypted() {
    let c = Crypter::new(&session_key());
    assert!(c.can_encrypt(0));
    assert!(c.can_encrypt(1 << 20));
    assert!(!c.can_encrypt(usize::MAX));
}

#[test]
fn replays_are_refused() {
    let mut tx = Crypter::new(&session_key());
    let mut rx = Crypter::new(&session_key());
    let (c0, f0) = tx.encrypt(b"zero");
    let (c1, f1) = tx.encrypt(b"one");
    let (c2, f2) = tx.encrypt(b"two");
    assert_eq!(rx.decrypt(c1, &f1), Ok(b"one".to_vec()));
    assert_eq!(rx.decrypt(c1, &f1), Err(CryptoError::Replay { ctr: 1, last: 1 }));
    assert_eq!(rx.decrypt(c0, &f0), Err(CryptoError::Replay { ctr: 0, last: 1 }));
    assert_eq!(rx.decrypt(c2, &f2), Ok(b"two".to_vec()));
    assert_eq!(
        CryptoError::Replay { ctr: 0, last: 1 }.describe(),
        "replay or out-of-order nonce: 0 <= 1"
    );
}

#[test]
fn frames_get_through_in_order_with_gaps() {
    let mut tx = Crypter::new(&session_key());
    let mut rx = Crypter::new(&session_key());
    for n in 0..50u8 {
        let (ctr, frame) = tx.encrypt(&[n; 5]);
        if n % 3 != 1 {
            assert_eq!(rx.decrypt(ctr, &frame), Ok(vec![n; 5]));
        }
    }
}

#[test]
fn altered_frames_are_refused_and_change_nothing() {
    let mut tx = Crypter::new(&session_key());
    let mut rx = Crypter::new(&session_key());
    let (ctr, frame) = tx.encrypt(b"zero");
    for i in 0..frame.len() {
        let mut bad = frame.clone();
        bad[i] ^= 1;
        assert_eq!(rx.decrypt(ctr, &bad), Err(CryptoError::Decrypt));
    }
    assert_eq!(rx.decrypt(7, &frame), Err(CryptoError::Decrypt));
    assert_eq!(rx.decrypt(ctr, &frame[..15]), Err(CryptoError::Decrypt));
    assert_eq!(rx.decrypt(ctr, &frame), Ok(b"zero".to_vec()));
    assert_eq!(CryptoError::Decrypt.describe(), "AES-GCM decryption failed: Error");
}

#[test]
fn a_stored_identity_is_kept() {
    let stored: Vec<u8> = counting(9).bytes.to_vec();
    let key = load_or_create_server_key(Some(stored.clone())).ok().unwrap();
    assert!(!key.is_new);
    assert_eq!(key.secret.bytes.to_vec(), stored);
    let fresh = load_or_create_server_key(None).ok().unwrap();
    let other = load_or_create_server_key(None).ok().unwrap();
    assert!(fresh.is_new);
    assert_ne!(fresh.secret.bytes, other.secret.bytes);
    let again = load_or_create_server_key(Some(fresh.secret.bytes.to_vec())).ok().unwrap();
    assert_eq!(
        public_key_and_fingerprint(&again.secret).1,
        public_key_and_fingerprint(&fresh.secret).1
    );
}

#[test]
fn a_corrupt_identity_is_refused() {
    for len in [0usize, 31, 33] {
        assert!(load_or_create_server_key(Some(vec![1; len])).is_err());
        assert!(matches!(server_key_from_bytes(&vec![1; len]), Err(CorruptIdentity)));
    }
    assert_eq!(CorruptIdentity.describe(), "corrupt server identity (expected 32 bytes)");
}

#[test]
fn frames_have_a_length_a_counter_and_a_ciphertext() {
    assert_eq!(
        encode_frame(0x0102, &[7, 8, 9]),
        vec![0, 0, 0, 11, 0, 0, 0, 0, 0, 0, 1, 2, 7, 8, 9]
    );
    assert_eq!(read_u32(&[1, 2, 3, 4]), 0x0102_0304);
    assert_eq!(body_len(&[0, 0, 0, 11]), Ok(11));
    assert_eq!(body_len(&[0, 0, 0, 8]), Ok(8));
    assert_eq!(body_len(&[0, 0, 0, 7]), Err(FrameError::TooSmall { len: 7 }));
    assert_eq!(FrameError::TooSmall { len: 7 }.describe(), "frame too small: 7");
}

#[test]
fn a_message_comes_out_of_its_frame() {
    let mut tx = Crypter::new(&session_key());
    let mut rx = Crypter::new(&session_key());
    for text in [&b"hello crosslink"[..], &b""[..], &[0u8; 300][..]] {
        let frame = send_msg(&mut tx, text);
        assert_eq!(frame.len(), text.len() + 28);
        let header: [u8; 4] = frame[..4].try_into().unwrap();
        assert_eq!(body_len(&header), Ok(frame.len() - 4));
        let again = frame.clone();
        assert_eq!(recv_msg(&mut rx, &frame[4..]), Ok(text.to_vec()));
        assert!(matches!(
            recv_msg(&mut rx, &again[4..]),
            Err(FrameError::Crypto(CryptoError::Replay { .. }))
        ));
    }
    assert_eq!(recv_msg(&mut rx, &[1, 2, 3]), Err(FrameError::TooSmall { len: 3 }));
    let e = FrameError::Crypto(CryptoError::Decrypt);
    assert_eq!(recv_msg(&mut rx, &[255; 40]), Err(e));
    assert_eq!(e.describe(), "AES-GCM decryption failed: Error");
}

#[test]
fn a_plain_server_captures_and_forwards() {
    let start = session_server(true, true, false, Side::Right, true, 1920, 1080);
    assert_eq!(
        start.capture,
        Some(CaptureOptions { win_w: 1920, win_h: 1080, mac_w: 0, mac_h: 0, m4_mode: true })
    );
    assert!(start.test_input && start.session.switch.is_none() && !start.session.inject);
    let s = start.session;
    assert!(matches!(
        s.outgoing(LocalEvent::Captured(CaptureMsg::Input(input(4)))),
        Some(Message::Input(ev)) if ev == input(4)
    ));
    assert!(matches!(
        s.outgoing(LocalEvent::Captured(CaptureMsg::CursorState { on_mac: true, x: 1, y: 2 })),
        Some(Message::CursorState(CursorState { on_mac: true, x: 1, y: 2 }))
    ));
    assert!(s.outgoing(LocalEvent::Crossed(Transfer { entry_x: 1, entry_y: 2 })).is_none());
    assert!(matches!(
        s.outgoing(LocalEvent::Tick { t: 77 }),
        Some(Message::Heartbeat { t: 77 })
    ));
    let off = session_server(false, false, false, Side::Right, false, 1920, 1080);
    assert_eq!((off.capture, off.test_input), (None, false));
}

#[test]
fn switch_mode_sends_transfers_only() {
    let start = session_server(true, true, true, Side::Right, false, 1920, 1080);
    assert_eq!((start.capture, start.test_input), (None, false));
    let mut s = start.session;
    assert!(s.switch.unwrap().owning);
    assert!(s.outgoing(LocalEvent::Captured(CaptureMsg::Input(input(4)))).is_none());
    assert!(matches!(
        s.outgoing(LocalEvent::Crossed(Transfer { entry_x: 1, entry_y: 2 })),
        Some(Message::Transfer(Transfer { entry_x: 1, entry_y: 2 }))
    ));
    assert!(matches!(s.handle_msg(Message::Input(input(4)), 0), Action::Nothing));
    let back = s.handle_msg(Message::Transfer(Transfer { entry_x: 1919, entry_y: 5 }), 0);
    assert!(matches!(back, Action::MoveCursor { x: 1919, y: 5 }));
    assert!(!s.switch.unwrap().armed);
    let mut c = session_client(true, true, Side::Left, 1440, 900);
    assert!(!c.inject && !c.switch.unwrap().owning);
    assert!(matches!(c.handle_msg(Message::Input(input(4)), 0), Action::Nothing));
}

#[test]
fn a_plain_client_injects() {
    let mut c = session_client(true, false, Side::Left, 1440, 900);
    assert!(matches!(
        c.handle_msg(Message::Input(input(4)), 0),
        Action::Inject(ev) if ev == input(4)
    ));
    let state = CursorState { on_mac: true, x: 3, y: 4 };
    assert!(matches!(
        c.handle_msg(Message::CursorState(state), 0),
        Action::ShowCursor(s) if s == state
    ));
    let before = c;
    let t = Transfer { entry_x: 1, entry_y: 2 };
    assert!(matches!(c.handle_msg(Message::Transfer(t), 0), Action::Nothing));
    assert_eq!(c, before);
    assert!(c.outgoing(LocalEvent::Captured(CaptureMsg::Input(input(4)))).is_none());
    let mut quiet = session_client(false, false, Side::Left, 1440, 900);
    assert!(matches!(quiet.handle_msg(Message::Input(input(4)), 0), Action::Nothing));
}

#[test]
fn a_server_ignores_input_and_cursor_states() {
    let mut s = session_server(true, false, false, Side::Right, false, 1920, 1080).session;
    assert!(matches!(s.handle_msg(Message::Input(input(4)), 0), Action::Nothing));
    let state = CursorState { on_mac: true, x: 3, y: 4 };
    assert!(matches!(s.handle_msg(Message::CursorState(state), 0), Action::Nothing));
}

#[test]
fn hello_tells_the_geometry() {
    let m = hello("pc-a", "windows", 1920, 1080);
    match &m {
        Message::Hello { name, platform, screen_w, screen_h } => {
            assert_eq!((name.as_str(), platform.as_str()), ("pc-a", "windows"));
            assert_eq!((*screen_w, *screen_h), (1920, 1080));
        }
        _ => panic!("not a hello"),
    }
    let mut c = session_client(true, true, Side::Left, 1440, 900);
    assert!(matches!(c.handle_msg(m, 0), Action::Nothing));
    let expected = Session { mac_w: 1920, mac_h: 1080, ..c };
    assert_eq!(c, expected);
    assert_eq!((c.switch.unwrap().peer_w, c.switch.unwrap().peer_h), (1920, 1080));
}

#[test]
fn heartbeats_are_answered_and_measured() {
    let mut a = session_client(true, false, Side::Left, 1440, 900);
    let mut b = session_server(false, false, false, Side::Right, false, 1, 1).session;
    let beat = a.outgoing(LocalEvent::Tick { t: 1000 }).unwrap();
    match b.handle_msg(beat, 5) {
        Action::Reply(ack) => {
            assert!(matches!(ack, Message::HeartbeatAck { t: 1000 }));
            assert!(matches!(a.handle_msg(ack, 1042), Action::RoundTrip { ms: 42 }));
        }
        _ => panic!("no answer"),
    }
    let late = a.handle_msg(Message::HeartbeatAck { t: 2000 }, 1042);
    assert!(matches!(late, Action::RoundTrip { ms: 0 }));
}

#[test]
fn the_command_line_decides() {
    let right = Side::Right;
    assert_eq!(launch(true, false, true, true, None), Launch::Contradiction);
    assert_eq!(launch(true, false, true, false, None), Launch::Server { side: right });
    assert_eq!(launch(true, true, false, true, None), Launch::Server { side: right });
    assert_eq!(launch(false, true, false, false, None), Launch::Client { side: Side::Left });
    assert_eq!(
        launch(false, true, true, false, Some(Side::Top)),
        Launch::Client { side: Side::Top }
    );
    assert_eq!(launch(false, false, true, false, None), Launch::Usage);
    assert_eq!(launch(false, false, true, true, None), Launch::Contradiction);
}

fn open_course(session: Session) -> Course {
    let (mut c, greeting) = begin(session, "pc-a", "linux", 640, 480);
    assert!(matches!(
        greeting,
        Message::Hello { name, platform, screen_w: 640, screen_h: 480 }
            if name == "pc-a" && platform == "linux"
    ));
    assert_eq!(c.phase, Phase::Greeting);
    assert!(matches!(c.advance(Input::Sent), Step::Wait));
    assert_eq!(c.phase, Phase::Open);
    c
}

#[test]
fn the_greeting_goes_first() {
    let s = session_server(true, false, false, Side::Right, false, 640, 480).session;
    let (mut c, _) = begin(s, "pc-a", "linux", 640, 480);
    // nothing else is sent while it is under way
    assert!(matches!(c.advance(Input::Local(LocalEvent::Tick { t: 1 })), Step::Wait));
    assert!(matches!(c.advance(Input::ReceiveFailed), Step::Wait));
    assert!(matches!(c.advance(Input::SendFailed), Step::End { failed: true }));
    assert!(matches!(c.advance(Input::Local(LocalEvent::Tick { t: 1 })), Step::Wait));
    assert_eq!(c.phase, Phase::Ended);
}

#[test]
fn failures_end_a_session() {
    let s = session_server(true, false, false, Side::Right, false, 640, 480).session;
    let mut c = open_course(s);
    assert!(matches!(c.advance(Input::ReceiveFailed), Step::End { failed: false }));

    let mut c = open_course(s);
    let sent = c.advance(Input::Local(LocalEvent::Tick { t: 7 }));
    assert!(matches!(sent, Step::Send(Message::Heartbeat { t: 7 })));
    assert!(matches!(c.advance(Input::SendFailed), Step::End { failed: false }));

    let mut c = open_course(s);
    let reply = c.advance(Input::Received { msg: Message::Heartbeat { t: 9 }, now: 0 });
    assert!(matches!(reply, Step::Send(Message::HeartbeatAck { t: 9 })));
    assert!(matches!(c.advance(Input::SendFailed), Step::End { failed: true }));

    let mut c = open_course(s);
    c.advance(Input::Local(LocalEvent::Tick { t: 7 }));
    assert!(matches!(c.advance(Input::Sent), Step::Wait));
    let ack = c.advance(Input::Received { msg: Message::HeartbeatAck { t: 7 }, now: 10 });
    assert!(matches!(ack, Step::Perform(Action::RoundTrip { ms: 3 })));
    assert_eq!(c.phase, Phase::Open);
}

#[test]
fn a_switching_client_sends_and_injects_no_input() {
    let mut c = open_course(session_client(true, true, Side::Left, 1440, 900));
    let typed = c.advance(Input::Received { msg: Message::Input(input(4)), now: 0 });
    assert!(matches!(typed, Step::Perform(Action::Nothing)));
    let captured = c.advance(Input::Local(LocalEvent::Captured(CaptureMsg::Input(input(4)))));
    assert!(matches!(captured, Step::Wait));
    assert!(!c.session.switch.unwrap().owning);
    let t = Transfer { entry_x: 0, entry_y: 450 };
    let arrived = c.advance(Input::Received { msg: Message::Transfer(t), now: 0 });
    assert!(matches!(arrived, Step::Perform(Action::MoveCursor { x: 0, y: 450 })));
    assert!(c.session.switch.unwrap().owning);
    let left = c.advance(Input::Local(LocalEvent::Crossed(t)));
    assert!(matches!(left, Step::Send(Message::Transfer(s)) if s == t));
}

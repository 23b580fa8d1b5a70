//! Messages of the session. After the handshake every one of them travels encrypted.

use vstd::prelude::*;

use crate::input::event::InputEvent;

verus! {

/// The owner of the pointer hands it to the peer.
///
/// The entry point is in the peer's own coordinates: the receiver puts its cursor there, on its
/// seam edge, and takes over.
#[derive(Debug, Clone, Copy, PartialEq, Eq, Structural)]
pub struct Transfer {
    pub entry_x: u32,
    pub entry_y: u32,
}

/// Where the single logical cursor is shown, in seamless mode.
///
/// Both screens form one desktop with one cursor, driven by the mouse of the Windows machine,
/// which tells the Mac whether to show the cursor and where.
#[derive(Debug, Clone, Copy, PartialEq, Eq, Structural)]
pub struct CursorState {
    /// The cursor is on the Mac, which shows it at `(x, y)`; else the Mac hides it.
    pub on_mac: bool,
    /// Position in the Mac's coordinates. It means something only while `on_mac` holds.
    pub x: u32,
    pub y: u32,
}

/// A message of the session.
#[derive(Debug, Clone)]
pub enum Message {
    /// First message of each side: its name, its platform and the size of its main screen.
    Hello { name: String, platform: String, screen_w: u32, screen_h: u32 },
    /// Sign of life, with the sender's clock in milliseconds.
    Heartbeat { t: u64 },
    /// Answer to a heartbeat; returns its timestamp.
    HeartbeatAck { t: u64 },
    /// An input event, from the capturing side to the injecting side.
    Input(InputEvent),
    /// The pointer changes hands.
    Transfer(Transfer),
    /// The logical cursor moved or changed screens.
    CursorState(CursorState),
}

} // verus!

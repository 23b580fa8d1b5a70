//! Input events, key codes and the rules of each platform's input backend.
//!
//! Windows and macOS have backends of their own. Every other platform captures nothing, injects
//! nothing and has a screen without extent.

pub mod capture;
pub mod event;
pub mod inject;
pub mod keycodes;
pub mod screen;

use vstd::prelude::*;

verus! {

/// What the capturing side produces.
#[derive(Debug, Clone, Copy, PartialEq, Eq, Structural)]
pub enum CaptureMsg {
    Input(event::InputEvent),
    /// The logical cursor moved or changed screens (seamless mode only).
    CursorState { on_mac: bool, x: u32, y: u32 },
}

/// How input is captured: the size of the local screen, and the mode.
#[derive(Debug, Clone, Copy, PartialEq, Eq, Structural)]
pub struct CaptureOptions {
    pub win_w: u32,
    pub win_h: u32,
    /// Size of the peer's screen, 0 until the peer has told it.
    pub mac_w: u32,
    pub mac_h: u32,
    /// One logical cursor over both screens, driven by this machine's mouse.
    pub m4_mode: bool,
}

/// The operating system that the program was built for.
#[derive(Debug, Clone, Copy, PartialEq, Eq, Structural)]
pub enum TargetOs {
    Windows,
    MacOs,
    Linux,
    Other,
}

/// The name by which a machine announces its platform.
pub open spec fn platform_name(os: TargetOs) -> Seq<char> {
    match os {
        TargetOs::Windows => "windows"@,
        TargetOs::MacOs => "macos"@,
        TargetOs::Linux => "linux"@,
        TargetOs::Other => "unknown"@,
    }
}

/// The name by which a machine announces its platform.
pub fn platform(os: TargetOs) -> (r: &'static str)
    ensures
        r@ == platform_name(os),
{
    match os {
        TargetOs::Windows => "windows",
        TargetOs::MacOs => "macos",
        TargetOs::Linux => "linux",
        TargetOs::Other => "unknown",
    }
}

} // verus!

//! Turning the peer's events into what a platform is asked to do.

pub mod fallback;
pub mod macos;
pub mod windows;

use vstd::prelude::*;
use vstd::string::StringExecFns;

use crate::input::event::HidKey;
use crate::text::push_hex4;

verus! {

/// Why an event cannot be injected.
#[derive(Debug, Clone, Copy, PartialEq, Eq, Structural)]
pub enum InjectError {
    /// The platform's table does not hold the key.
    UnknownKey { hid: HidKey },
}

impl InjectError {
    /// The message for the log.
    pub open spec fn text(self) -> Seq<char> {
        match self {
            InjectError::UnknownKey { hid } => "inject: unknown HID key 0x"@ + crate::text::hex4(
                hid,
            ),
        }
    }

    /// The message for the log.
    pub fn describe(&self) -> (r: String)
        ensures
            r@ == self.text(),
    {
        match self {
            InjectError::UnknownKey { hid } => {
                let mut s = String::from_str("inject: unknown HID key 0x");
                push_hex4(&mut s, *hid);
                s
            },
        }
    }
}

} // verus!

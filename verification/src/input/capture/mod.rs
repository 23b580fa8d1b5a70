//! Turning what a platform reports into events for the peer.

pub mod fallback;
pub mod macos;
pub mod run;
pub mod seamless;
pub mod windows;

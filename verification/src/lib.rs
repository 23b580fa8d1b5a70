//! CrossLink: one keyboard and one mouse for two machines.
//!
//! This crate is the deciding part of the program: key code tables, the edge switching
//! controller, the capture and injection rules of each platform, the encrypted channel and the
//! session logic. Everything that touches a socket, a screen or an input device is done by the
//! program around it, which hands plain values in and carries out the actions that come back.

pub mod binary64;
pub mod input;
pub mod launch;
pub mod laws;
pub mod net;
pub mod numeric;
pub mod switch;
pub mod text;

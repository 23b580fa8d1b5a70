//! The encrypted channel and the session that runs over it.

pub mod course;
pub mod crypto;
pub mod primitives;
pub mod protocol;
pub mod transport;

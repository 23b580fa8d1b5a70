//! What the operations are for, said of their inputs and results.
//!
//! The contracts of the library are exact, over spec functions of their own. The laws here say of
//! the same spec functions what a user relies on, in numbers and in relations between calls: which
//! place a pointer lands at, which event comes out, what is sent and what the other side makes of
//! it.

pub mod arithmetic;
pub mod capture;
pub mod channel;
pub mod injection;
pub mod keys;
pub mod limits;
pub mod seamless;
pub mod session;
pub mod switching;
pub mod words;

//! Injection on a platform without a backend.

use vstd::prelude::*;

use super::InjectError;
use crate::input::event::InputEvent;

verus! {

/// Accepts every event and does nothing.
pub fn inject_event(_ev: InputEvent) -> (r: Result<(), InjectError>)
    ensures
        r == Ok::<(), InjectError>(()),
{
    Ok(())
}

/// Accepts every cursor state and does nothing.
pub fn handle_cursor_state(_on_mac: bool, _x: u32, _y: u32) -> (r: Result<(), InjectError>)
    ensures
        r == Ok::<(), InjectError>(()),
{
    Ok(())
}

} // verus!

//! The screen of a platform without a backend.
//!
//! It has no extent, and its cursor rests at the origin. Pointer switching idles on such a
//! platform, since it waits until both screens are known.

use vstd::prelude::*;

verus! {

/// The size of the main screen: none.
pub fn screen_size() -> (r: (u32, u32))
    ensures
        r == (0u32, 0u32),
{
    (0, 0)
}

/// The position of the cursor: the origin.
pub fn get_cursor_pos() -> (r: (i32, i32))
    ensures
        r == (0i32, 0i32),
{
    (0, 0)
}

/// Leaves the cursor where it is.
pub fn set_cursor_pos(_x: i32, _y: i32) {
}

} // verus!

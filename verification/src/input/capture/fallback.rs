//! Capture on a platform without a backend.

use vstd::prelude::*;

use crate::input::{CaptureMsg, CaptureOptions};

verus! {

/// Everything that will ever be captured: nothing, whatever the options.
pub fn start_capture(_opts: CaptureOptions) -> (r: Vec<CaptureMsg>)
    ensures
        r@ == Seq::<CaptureMsg>::empty(),
{
    Vec::new()
}

} // verus!

//! The load test: a thousand freshly styled boxes, drawn once per request.

use vstd::prelude::*;

verus! {

/// The number of boxes that one run of the load test draws: a grid of 40
/// columns and 25 rows.
pub const BOXES: u32 = 1000;

/// Before the page is drawn: a pending request for the load test is taken,
/// so that the boxes are drawn once and not again with the next frame.
/// Returns the number of boxes to draw.
pub fn take_request(do_load_test: &mut bool) -> (boxes: u32)
    ensures
        !*final(do_load_test),
        boxes == if *old(do_load_test) {
            BOXES
        } else {
            0
        },
{
    if *do_load_test {
        *do_load_test = false;
        BOXES
    } else {
        0
    }
}

} // verus!

//! The video timeline under each camera: fixed width, and a least width for
//! the pill of a short video.
use vstd::prelude::*;

verus! {

/// Width of the video timeline, in pixels.
pub const TIMELINE_WIDTH: i32 = 1400;

/// Least width of a video's pill, in pixels.
pub const MIN_PILL_WIDTH: i32 = 5;

/// The width of a video's pill given the width its duration takes on the
/// timeline: never below the least pill width.
pub fn pill_width(calculated: i32) -> (r: i32)
    ensures
        r == (if calculated < MIN_PILL_WIDTH {
            MIN_PILL_WIDTH
        } else {
            calculated
        }),
{
    if calculated < MIN_PILL_WIDTH {
        MIN_PILL_WIDTH
    } else {
        calculated
    }
}

} // verus!

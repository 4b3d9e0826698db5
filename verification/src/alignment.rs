//! The search windows of the alignment: the offsets of the recording around
//! an expected start at which the reference is tried.

use vstd::prelude::*;

verus! {

/// The offsets `[start, end]` (both included) tried around `center`: at most
/// `radius` away on either side, never below zero, and never so late that the
/// reference (`reference_len` samples) would run past the end of the recording
/// (`recorded_len` samples). The window is empty when `end < start`.
pub fn search_window(center: usize, radius: usize, recorded_len: usize, reference_len: usize) -> (r: (
    usize,
    usize,
))
    requires
        center + radius <= usize::MAX,
    ensures
        r.0 == if center >= radius {
            center - radius
        } else {
            0
        },
        r.1 == if recorded_len < reference_len {
            0
        } else if center + radius <= recorded_len - reference_len {
            center + radius
        } else {
            recorded_len - reference_len
        },
        r.1 <= center + radius,
        reference_len <= recorded_len ==> r.1 + reference_len <= recorded_len,
{
    let start = if center >= radius {
        center - radius
    } else {
        0
    };
    let last_fit = if recorded_len < reference_len {
        0
    } else {
        recorded_len - reference_len
    };
    let end = if center + radius <= last_fit {
        center + radius
    } else {
        last_fit
    };
    (start, end)
}

} // verus!

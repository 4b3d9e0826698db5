//! The index rules of a multi-segment evaluation: which part of the recording
//! a detected occurrence of the reference covers, which patches of a segment
//! count for the spectral damage score, and how frequency bands are split into
//! a low and a high group.

use vstd::prelude::*;

verus! {

/// The part `[start, end)` of a recording of `recorded_len` samples that the
/// occurrence of the reference found at `offset` covers: it starts at the
/// offset (or at the end of the recording, if the offset lies beyond it) and
/// is as long as the reference, cut at the end of the recording.
pub fn segment_bounds(offset: usize, reference_len: usize, recorded_len: usize) -> (r: (
    usize,
    usize,
))
    requires
        (if offset <= recorded_len {
            offset
        } else {
            recorded_len
        }) + reference_len <= usize::MAX,
    ensures
        r.0 == if offset <= recorded_len {
            offset
        } else {
            recorded_len
        },
        r.1 == if r.0 + reference_len <= recorded_len {
            r.0 + reference_len
        } else {
            recorded_len as int
        },
        r.0 <= r.1 <= recorded_len,
        r.1 - r.0 <= reference_len,
{
    let start = if offset <= recorded_len {
        offset
    } else {
        recorded_len
    };
    let end = if start + reference_len <= recorded_len {
        start + reference_len
    } else {
        recorded_len
    };
    (start, end)
}

/// The patches `[start, end)` of a segment with `patch_count` patches that
/// count for its spectral damage score: the first and the last patch are left
/// out (their edges are padded or fading), unless there are fewer than four.
pub fn interior_patch_range(patch_count: usize) -> (r: (usize, usize))
    ensures
        patch_count >= 4 ==> r.0 == 1 && r.1 == patch_count - 1,
        patch_count < 4 ==> r.0 == 0 && r.1 == patch_count,
        r.0 <= r.1 <= patch_count,
{
    if patch_count >= 4 {
        (1, patch_count - 1)
    } else {
        (0, patch_count)
    }
}

/// How many of `band_count` bands (lowest first) form the low group, and how
/// many (highest first) form the high group: a third, at least one, for the
/// low group; what lies above two thirds for the high group.
pub fn frequency_band_split(band_count: usize) -> (r: (usize, usize))
    requires
        band_count * 2 <= usize::MAX,
    ensures
        r.0 == if band_count / 3 >= 1 {
            band_count / 3
        } else {
            1
        },
        r.1 == band_count - band_count * 2 / 3,
        r.1 <= band_count,
{
    let third = band_count / 3;
    let low = if third >= 1 {
        third
    } else {
        1
    };
    let two_thirds = band_count * 2 / 3;
    let high = band_count - two_thirds;
    (low, high)
}

} // verus!

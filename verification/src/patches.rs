//! Where the patches of a spectrogram lie: the copy of one patch out of a
//! spectrogram, the grid of patches that are compared band block by band
//! block and frame by frame, and the reference patches that the time search
//! tries to place in the degraded signal.

use vstd::prelude::*;

verus! {

/// The value a patch holds at frame `f` of band `b`: the spectrogram's value,
/// or `fill` past the end of that band.
pub open spec fn patch_cell<T>(spectrogram: Seq<Vec<T>>, b: int, f: int, fill: T) -> T {
    if f < spectrogram[b].len() {
        spectrogram[b]@[f]
    } else {
        fill
    }
}

/// The number of bands a patch taken from `band_count` bands gets: those of
/// `[start_band, start_band + num_bands)` that exist.
pub open spec fn patch_band_count(band_count: int, start_band: int, num_bands: int) -> int {
    let end = if start_band + num_bands <= band_count {
        start_band + num_bands
    } else {
        band_count
    };
    if start_band < end {
        end - start_band
    } else {
        0
    }
}

/// A patch gets all `num_bands` bands when they all exist, the bands from
/// `start_band` to the last one when the block runs past the end, and none
/// when it starts past the end.
pub proof fn lemma_patch_band_count(band_count: int, start_band: int, num_bands: int)
    requires
        band_count >= 0,
        start_band >= 0,
        num_bands >= 0,
    ensures
        start_band + num_bands <= band_count ==> patch_band_count(
            band_count,
            start_band,
            num_bands,
        ) == num_bands,
        start_band < band_count < start_band + num_bands ==> patch_band_count(
            band_count,
            start_band,
            num_bands,
        ) == band_count - start_band,
        start_band >= band_count ==> patch_band_count(band_count, start_band, num_bands) == 0,
{
}

/// Copies the patch of `num_frames` frames from `start_frame` of the bands
/// `[start_band, start_band + num_bands)` that exist in `spectrogram`; frames
/// past the end of a band read as `fill`.
pub fn extract_patch<T: Copy>(
    spectrogram: &[Vec<T>],
    start_band: usize,
    num_bands: usize,
    start_frame: usize,
    num_frames: usize,
    fill: T,
) -> (patch: Vec<Vec<T>>)
    requires
        start_band + num_bands <= usize::MAX,
        start_frame + num_frames <= usize::MAX,
    ensures
        patch.len() == patch_band_count(spectrogram@.len() as int, start_band as int, num_bands as int),
        start_band + num_bands <= spectrogram.len() ==> patch.len() == num_bands,
        start_band < spectrogram.len() < start_band + num_bands ==> patch.len()
            == spectrogram.len() - start_band,
        start_band >= spectrogram.len() ==> patch.len() == 0,
        forall|j: int|
            0 <= j < patch.len() ==> (#[trigger] patch@[j]).len() == num_frames && forall|k: int|
                0 <= k < num_frames ==> patch@[j]@[k] == patch_cell(
                    spectrogram@,
                    start_band + j,
                    start_frame + k,
                    fill,
                ),
{
    let band_end = if start_band + num_bands <= spectrogram.len() {
        start_band + num_bands
    } else {
        spectrogram.len()
    };
    proof {
        lemma_patch_band_count(spectrogram@.len() as int, start_band as int, num_bands as int);
    }
    let mut patch: Vec<Vec<T>> = Vec::new();
    let mut b = start_band;
    while b < band_end
        invariant
            band_end <= spectrogram.len(),
            band_end <= start_band + num_bands,
            start_frame + num_frames <= usize::MAX,
            start_band <= b,
            b < band_end ==> patch.len() == b - start_band,
            b >= band_end ==> patch.len() == (if start_band < band_end {
                band_end - start_band
            } else {
                0
            }),
            forall|j: int|
                0 <= j < patch.len() ==> (#[trigger] patch@[j]).len() == num_frames && forall|
                    k: int,
                |
                    0 <= k < num_frames ==> patch@[j]@[k] == patch_cell(
                        spectrogram@,
                        start_band + j,
                        start_frame + k,
                        fill,
                    ),
        decreases band_end - b,
    {
        let mut row: Vec<T> = Vec::new();
        let mut f = start_frame;
        while f < start_frame + num_frames
            invariant
                b < spectrogram.len(),
                start_frame <= f <= start_frame + num_frames,
                start_frame + num_frames <= usize::MAX,
                row.len() == f - start_frame,
                forall|k: int|
                    0 <= k < row.len() ==> row@[k] == patch_cell(
                        spectrogram@,
                        b as int,
                        start_frame + k,
                        fill,
                    ),
            decreases start_frame + num_frames - f,
        {
            let v = if f < spectrogram[b].len() {
                spectrogram[b][f]
            } else {
                fill
            };
            row.push(v);
            f = f + 1;
        }
        patch.push(row);
        b = b + 1;
    }
    patch
}

/// How many positions `0, hop, 2 * hop, ...` leave room for a window of
/// `size` within `limit`.
pub open spec fn axis_count(limit: int, size: int, hop: int) -> int {
    if size > limit {
        0
    } else {
        (limit - size) / hop + 1
    }
}

/// Position `a * hop` leaves room for a window of `size` within `limit`
/// exactly when `a` is below `axis_count`.
pub proof fn lemma_axis_count(limit: int, size: int, hop: int, a: int)
    requires
        limit >= 0,
        size > 0,
        hop > 0,
        a >= 0,
    ensures
        a * hop + size <= limit <==> a < axis_count(limit, size, hop),
        0 <= axis_count(limit, size, hop) <= limit,
{
    if size <= limit {
        let q = (limit - size) / hop;
        assert(q * hop <= limit - size < q * hop + hop) by (nonlinear_arith)
            requires
                q == (limit - size) / hop,
                hop > 0,
                limit - size >= 0,
        ;
        assert(q >= 0 && q <= limit - size) by (nonlinear_arith)
            requires
                q * hop <= limit - size < q * hop + hop,
                hop >= 1,
                limit - size >= 0,
        ;
        if a <= q {
            assert(a * hop <= q * hop) by (nonlinear_arith)
                requires
                    a <= q,
                    hop > 0,
            ;
        } else {
            assert(a * hop >= (q + 1) * hop) by (nonlinear_arith)
                requires
                    a >= q + 1,
                    hop > 0,
            ;
            assert((q + 1) * hop == q * hop + hop) by (nonlinear_arith);
        }
    } else {
        assert(a * hop >= 0) by (nonlinear_arith)
            requires
                a >= 0,
                hop > 0,
        ;
    }
}

/// The top-left corners `(band, frame)` of the patches compared between two
/// spectrograms of `band_count` bands and `frame_count` frames: band blocks
/// of `patch_bands` every `hop_bands` bands, and within each, frame windows of
/// `patch_frames` every `hop_frames` frames, band block by band block. Any
/// zero size or hop gives no patches.
pub fn patch_grid(
    band_count: usize,
    frame_count: usize,
    patch_bands: usize,
    patch_frames: usize,
    hop_bands: usize,
    hop_frames: usize,
) -> (r: Vec<(usize, usize)>)
    ensures
        patch_bands == 0 || patch_frames == 0 || hop_bands == 0 || hop_frames == 0 ==> r.len()
            == 0,
        patch_bands > 0 && patch_frames > 0 && hop_bands > 0 && hop_frames > 0 ==> {
            let nb = axis_count(band_count as int, patch_bands as int, hop_bands as int);
            let nf = axis_count(frame_count as int, patch_frames as int, hop_frames as int);
            &&& r.len() == nb * nf
            &&& forall|k: int|
                0 <= k < r.len() ==> (#[trigger] r@[k]).0 == (k / nf) * hop_bands && r@[k].1
                    == (k % nf) * hop_frames
            &&& forall|k: int|
                0 <= k < r.len() ==> (#[trigger] r@[k]).0 + patch_bands <= band_count && r@[k].1
                    + patch_frames <= frame_count
        },
{
    let mut r: Vec<(usize, usize)> = Vec::new();
    if patch_bands == 0 || patch_frames == 0 || hop_bands == 0 || hop_frames == 0 {
        return r;
    }
    let nb: usize = if patch_bands > band_count {
        0
    } else {
        (band_count - patch_bands) / hop_bands + 1
    };
    let nf: usize = if patch_frames > frame_count {
        0
    } else {
        (frame_count - patch_frames) / hop_frames + 1
    };
    proof {
        lemma_axis_count(band_count as int, patch_bands as int, hop_bands as int, 0);
        lemma_axis_count(frame_count as int, patch_frames as int, hop_frames as int, 0);
    }
    let mut a: usize = 0;
    while a < nb
        invariant
            0 < hop_bands,
            0 < hop_frames,
            0 < patch_bands,
            0 < patch_frames,
            nb == axis_count(band_count as int, patch_bands as int, hop_bands as int),
            nf == axis_count(frame_count as int, patch_frames as int, hop_frames as int),
            nb <= band_count,
            nf <= frame_count,
            a <= nb,
            r.len() == a * nf,
            forall|k: int|
                0 <= k < r.len() ==> (#[trigger] r@[k]).0 == (k / nf as int) * hop_bands
                    && r@[k].1 == (k % nf as int) * hop_frames,
            forall|k: int|
                0 <= k < r.len() ==> (#[trigger] r@[k]).0 + patch_bands <= band_count && r@[k].1
                    + patch_frames <= frame_count,
        decreases nb - a,
    {
        proof {
            lemma_axis_count(band_count as int, patch_bands as int, hop_bands as int, a as int);
        }
        let band_pos = a * hop_bands;
        let mut c: usize = 0;
        while c < nf
            invariant
                0 < hop_frames,
                0 < patch_frames,
                nf == axis_count(frame_count as int, patch_frames as int, hop_frames as int),
                nf <= frame_count,
                a < nb,
                band_pos == a * hop_bands,
                c <= nf,
                r.len() == a * nf + c,
                forall|k: int|
                    0 <= k < r.len() ==> (#[trigger] r@[k]).0 == (k / nf as int) * hop_bands
                        && r@[k].1 == (k % nf as int) * hop_frames,
                forall|k: int|
                    0 <= k < r.len() ==> (#[trigger] r@[k]).0 + patch_bands <= band_count
                        && r@[k].1 + patch_frames <= frame_count,
                band_pos + patch_bands <= band_count,
            decreases nf - c,
        {
            proof {
                lemma_axis_count(
                    frame_count as int,
                    patch_frames as int,
                    hop_frames as int,
                    c as int,
                );
                vstd::arithmetic::div_mod::lemma_fundamental_div_mod_converse(
                    (a * nf + c) as int,
                    nf as int,
                    a as int,
                    c as int,
                );
            }
            let frame_pos = c * hop_frames;
            r.push((band_pos, frame_pos));
            c = c + 1;
        }
        proof {
            assert(a * nf + nf == (a + 1) * nf) by (nonlinear_arith);
        }
        a = a + 1;
    }
    r
}

/// The positions `[start, end]` (both included) of the degraded spectrogram
/// searched for a reference patch that starts at `ref_start`: from `window`
/// frames before it (never below zero) to `window` frames after it, but not
/// past `last_position`.
pub fn patch_search_range(ref_start: usize, window: usize, last_position: usize) -> (r: (
    usize,
    usize,
))
    requires
        ref_start + window <= usize::MAX,
    ensures
        r.0 == if ref_start > window {
            ref_start - window
        } else {
            0
        },
        r.1 == if ref_start + window <= last_position {
            ref_start + window
        } else {
            last_position as int
        },
{
    let start = if ref_start > window {
        ref_start - window
    } else {
        0
    };
    let end = if ref_start + window <= last_position {
        ref_start + window
    } else {
        last_position
    };
    (start, end)
}

/// The first frame `patch_size / 2 + k * patch_size` of the `k`-th reference
/// patch.
pub open spec fn reference_patch_start(patch_size: int, k: int) -> int {
    patch_size / 2 + k * patch_size
}

/// The first frames of the reference patches that the time search places:
/// from `patch_size / 2` on, every `patch_size` frames, as long as the whole
/// patch fits in `frame_count` frames.
pub fn reference_patch_starts(frame_count: usize, patch_size: usize) -> (r: Vec<usize>)
    requires
        patch_size > 0,
    ensures
        forall|k: int|
            0 <= k < r.len() ==> #[trigger] r@[k] == reference_patch_start(patch_size as int, k)
                && r@[k] + patch_size <= frame_count,
        reference_patch_start(patch_size as int, r.len() as int) + patch_size > frame_count,
{
    let mut r: Vec<usize> = Vec::new();
    let mut i = patch_size / 2;
    proof {
        assert(reference_patch_start(patch_size as int, 0) == patch_size / 2) by (nonlinear_arith);
    }
    while patch_size <= frame_count && i <= frame_count - patch_size
        invariant
            patch_size > 0,
            i == reference_patch_start(patch_size as int, r.len() as int),
            forall|k: int|
                0 <= k < r.len() ==> #[trigger] r@[k] == reference_patch_start(
                    patch_size as int,
                    k,
                ) && r@[k] + patch_size <= frame_count,
        decreases frame_count + patch_size - i,
    {
        r.push(i);
        proof {
            assert(reference_patch_start(patch_size as int, r.len() as int) == i + patch_size)
                by (nonlinear_arith)
                requires
                    i == patch_size / 2 + (r.len() - 1) * patch_size,
            ;
        }
        i = i + patch_size;
    }
    r
}

} // verus!

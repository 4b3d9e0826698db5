//! How a signal is cut into pixel columns for the waveform drawing: each
//! column covers a run of consecutive samples, whose minimum and maximum are
//! drawn.

use vstd::prelude::*;

verus! {

/// `a / b` rounded up.
pub open spec fn ceil_div(a: int, b: int) -> int {
    (a + b - 1) / b
}

/// How many samples each pixel column covers, and how many columns there are.
#[derive(Debug)]
pub struct WaveformLayout {
    pub samples_per_pixel: usize,
    pub pixel_count: usize,
}

/// The first sample of column `i`.
pub open spec fn column_start(samples_per_pixel: int, i: int) -> int {
    i * samples_per_pixel
}

/// One past the last sample of column `i`.
pub open spec fn column_end(samples_per_pixel: int, sample_count: int, i: int) -> int {
    if (i + 1) * samples_per_pixel <= sample_count {
        (i + 1) * samples_per_pixel
    } else {
        sample_count
    }
}

/// Lays out `sample_count` samples over at most `target_pixels` columns: each
/// column covers `ceil(sample_count / target_pixels)` samples, the last one
/// possibly fewer. Without samples or columns there is nothing to draw.
pub fn waveform_layout(sample_count: usize, target_pixels: usize) -> (r: WaveformLayout)
    requires
        sample_count > 0 && target_pixels > 0 ==> sample_count + target_pixels <= usize::MAX,
        sample_count > 0 && target_pixels > 0 ==> sample_count + ceil_div(
            sample_count as int,
            target_pixels as int,
        ) <= usize::MAX,
    ensures
        sample_count == 0 || target_pixels == 0 ==> r.samples_per_pixel == 1 && r.pixel_count
            == 0,
        sample_count > 0 && target_pixels > 0 ==> {
            &&& r.samples_per_pixel == ceil_div(sample_count as int, target_pixels as int)
            &&& r.pixel_count == ceil_div(sample_count as int, r.samples_per_pixel as int)
        },
{
    if sample_count == 0 || target_pixels == 0 {
        return WaveformLayout { samples_per_pixel: 1, pixel_count: 0 };
    }
    let samples_per_pixel = (sample_count + target_pixels - 1) / target_pixels;
    proof {
        lemma_ceil_div_bounds(sample_count as int, target_pixels as int);
    }
    let pixel_count = (sample_count + samples_per_pixel - 1) / samples_per_pixel;
    WaveformLayout { samples_per_pixel, pixel_count }
}

/// Lays out the columns as `waveform_layout` does, or gives `None` when one of
/// the sums that layout needs (samples plus columns, samples plus samples per
/// column) does not fit in a `usize`.
pub fn waveform_layout_checked(sample_count: usize, target_pixels: usize) -> (r: Option<
    WaveformLayout,
>)
    ensures
        r is None <==> (sample_count > 0 && target_pixels > 0 && (sample_count + target_pixels
            > usize::MAX || sample_count + ceil_div(sample_count as int, target_pixels as int)
            > usize::MAX)),
        r matches Some(l) ==> {
            &&& (sample_count == 0 || target_pixels == 0 ==> l.samples_per_pixel == 1
                && l.pixel_count == 0)
            &&& (sample_count > 0 && target_pixels > 0 ==> {
                &&& l.samples_per_pixel == ceil_div(sample_count as int, target_pixels as int)
                &&& l.pixel_count == ceil_div(sample_count as int, l.samples_per_pixel as int)
            })
        },
{
    if sample_count == 0 || target_pixels == 0 {
        return Some(waveform_layout(sample_count, target_pixels));
    }
    if target_pixels > usize::MAX - sample_count {
        return None;
    }
    let samples_per_pixel = (sample_count + target_pixels - 1) / target_pixels;
    if samples_per_pixel > usize::MAX - sample_count {
        return None;
    }
    Some(waveform_layout(sample_count, target_pixels))
}

/// The samples `[start, end)` that column `i` covers.
pub fn column_range(samples_per_pixel: usize, sample_count: usize, i: usize) -> (r: (
    usize,
    usize,
))
    requires
        i < usize::MAX,
        (i + 1) * samples_per_pixel <= usize::MAX,
    ensures
        r.0 == column_start(samples_per_pixel as int, i as int),
        r.1 == column_end(samples_per_pixel as int, sample_count as int, i as int),
{
    proof {
        assert(i * samples_per_pixel <= (i + 1) * samples_per_pixel) by (nonlinear_arith);
    }
    let start = i * samples_per_pixel;
    let next = (i + 1) * samples_per_pixel;
    let end = if next <= sample_count {
        next
    } else {
        sample_count
    };
    (start, end)
}

pub proof fn lemma_ceil_div_bounds(a: int, b: int)
    requires
        a > 0,
        b > 0,
    ensures
        1 <= ceil_div(a, b) <= a,
        ceil_div(a, b) * b >= a,
        (ceil_div(a, b) - 1) * b < a,
{
    let q = ceil_div(a, b);
    assert(q * b <= a + b - 1 < q * b + b) by (nonlinear_arith)
        requires
            q == (a + b - 1) / b,
            b > 0,
            a > 0,
    ;
    assert(q >= 1) by (nonlinear_arith)
        requires
            q * b + b > a + b - 1,
            a > 0,
            b > 0,
    ;
    assert(q <= a) by (nonlinear_arith)
        requires
            q * b <= a + b - 1,
            b >= 1,
            a > 0,
            q >= 1,
    ;
    assert((q - 1) * b < a) by (nonlinear_arith)
        requires
            q * b <= a + b - 1,
    ;
}

/// The columns of a layout tile the signal: there is at least one column and
/// at most `target_pixels`, every column covers at least one sample, each
/// column starts where the one before it ends, the first starts at sample 0
/// and the last ends at the last sample.
pub proof fn lemma_columns_tile_signal(sample_count: int, target_pixels: int)
    requires
        sample_count > 0,
        target_pixels > 0,
    ensures
        ({
            let spp = ceil_div(sample_count, target_pixels);
            let count = ceil_div(sample_count, spp);
            &&& 1 <= count <= target_pixels
            &&& column_start(spp, 0) == 0
            &&& column_end(spp, sample_count, count - 1) == sample_count
            &&& forall|i: int|
                0 <= i < count ==> column_start(spp, i) < #[trigger] column_end(
                    spp,
                    sample_count,
                    i,
                )
            &&& forall|i: int|
                0 <= i < count - 1 ==> #[trigger] column_end(spp, sample_count, i)
                    == column_start(spp, i + 1)
        }),
{
    let spp = ceil_div(sample_count, target_pixels);
    lemma_ceil_div_bounds(sample_count, target_pixels);
    let count = ceil_div(sample_count, spp);
    lemma_ceil_div_bounds(sample_count, spp);
    assert(count <= target_pixels) by (nonlinear_arith)
        requires
            spp * target_pixels >= sample_count,
            (count - 1) * spp < sample_count,
            spp >= 1,
    ;
    assert(column_end(spp, sample_count, count - 1) == sample_count) by (nonlinear_arith)
        requires
            count * spp >= sample_count,
            (count - 1 + 1) * spp == count * spp,
    ;
    assert forall|i: int| 0 <= i < count implies column_start(spp, i) < #[trigger] column_end(
        spp,
        sample_count,
        i,
    ) by {
        assert(i * spp < (i + 1) * spp) by (nonlinear_arith)
            requires
                spp >= 1,
        ;
        assert(i * spp <= (count - 1) * spp) by (nonlinear_arith)
            requires
                spp >= 1,
                i <= count - 1,
        ;
    }
    assert forall|i: int| 0 <= i < count - 1 implies #[trigger] column_end(spp, sample_count, i)
        == column_start(spp, i + 1) by {
        assert((i + 1) * spp <= (count - 1) * spp) by (nonlinear_arith)
            requires
                spp >= 1,
                i + 1 <= count - 1,
        ;
    }
}

} // verus!

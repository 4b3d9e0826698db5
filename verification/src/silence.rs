//! Where a signal really ends: the number of samples that carry signal, not
//! counting a trailing stretch of silence (or zero padding). Scanning back
//! from the last sample, one window after another is tested for silence by
//! the caller; the trailing silent run, when it is long enough, is cut off.

use vstd::prelude::*;

verus! {

/// One step of the backward scan for trailing silence.
#[derive(Debug, Clone, Copy)]
pub enum SilenceScan {
    /// Keep scanning; this many consecutive silent windows end the signal.
    Continue { silent_count: usize },
    /// The samples `[0, audio_end)` carry the signal.
    End { audio_end: usize },
}

/// The outcome of the scan step at window `index` (the window of
/// `window_size` samples ending at sample `index`), after `count` silent
/// windows ending the signal: `None` to go on, or the audible length.
/// A loud window ends the scan: when at least `silence_window` silent windows
/// follow it, the signal ends where the first of them begins, else it runs to
/// the last sample. A silent first window ends it the same way at sample 0.
pub open spec fn silence_step(
    count: int,
    index: int,
    window_is_silent: bool,
    silence_window: int,
    window_size: int,
    sample_count: int,
) -> Option<int> {
    if !window_is_silent {
        Some(
            if count >= silence_window {
                if index + 1 - (window_size - 1) > 0 {
                    index + 1 - (window_size - 1)
                } else {
                    0
                }
            } else {
                sample_count
            },
        )
    } else if index == 0 {
        Some(
            if count + 1 >= silence_window {
                0
            } else {
                sample_count
            },
        )
    } else {
        None
    }
}

/// One step of the backward scan at window `index`, after `silent_count`
/// silent windows at the end of the signal.
pub fn trailing_silence_step(
    silent_count: usize,
    index: usize,
    window_is_silent: bool,
    silence_window: usize,
    window_size: usize,
    sample_count: usize,
) -> (r: SilenceScan)
    requires
        window_size >= 1,
        index < sample_count,
        silent_count <= sample_count - 1 - index,
    ensures
        silence_step(
            silent_count as int,
            index as int,
            window_is_silent,
            silence_window as int,
            window_size as int,
            sample_count as int,
        ) matches Some(e) ==> r == (SilenceScan::End { audio_end: e as usize }),
        silence_step(
            silent_count as int,
            index as int,
            window_is_silent,
            silence_window as int,
            window_size as int,
            sample_count as int,
        ) is None ==> r == (SilenceScan::Continue { silent_count: (silent_count + 1) as usize }),
        r matches SilenceScan::End { audio_end } ==> audio_end <= sample_count,
{
    if !window_is_silent {
        let audio_end = if silent_count >= silence_window {
            if index + 1 > window_size - 1 {
                index + 1 - (window_size - 1)
            } else {
                0
            }
        } else {
            sample_count
        };
        SilenceScan::End { audio_end }
    } else if index == 0 {
        let audio_end = if silent_count + 1 >= silence_window {
            0
        } else {
            sample_count
        };
        SilenceScan::End { audio_end }
    } else {
        SilenceScan::Continue { silent_count: silent_count + 1 }
    }
}

/// How many windows at the end of `silent` are silent.
pub open spec fn trailing_run(silent: Seq<bool>) -> nat
    decreases silent.len(),
{
    if silent.len() > 0 && silent.last() {
        1 + trailing_run(silent.drop_last())
    } else {
        0
    }
}

/// The number of samples that carry signal, given which windows are silent
/// (window `i` ends at sample `i`): when at least `silence_window` windows at
/// the end are silent, the signal ends where the first of them begins;
/// otherwise it runs to the last sample.
pub open spec fn audible_length(silent: Seq<bool>, silence_window: int, window_size: int) -> int {
    let run = trailing_run(silent);
    let first = silent.len() - run;
    if run >= silence_window {
        if first - (window_size - 1) > 0 {
            first - (window_size - 1)
        } else {
            0
        }
    } else {
        silent.len() as int
    }
}

/// The scan from window `index` down, after `count` silent windows.
pub open spec fn silence_scan(
    silent: Seq<bool>,
    index: int,
    count: int,
    silence_window: int,
    window_size: int,
) -> int
    decreases index,
{
    if index < 0 || index >= silent.len() {
        silent.len() as int
    } else {
        match silence_step(
            count,
            index,
            silent[index],
            silence_window,
            window_size,
            silent.len() as int,
        ) {
            Some(e) => e,
            None => silence_scan(silent, index - 1, count + 1, silence_window, window_size),
        }
    }
}

pub proof fn lemma_trailing_run(silent: Seq<bool>, j: int)
    requires
        0 <= j <= silent.len(),
        forall|k: int| j <= k < silent.len() ==> silent[k],
        j == 0 || !silent[j - 1],
    ensures
        trailing_run(silent) == silent.len() - j,
    decreases silent.len(),
{
    if silent.len() > j {
        let d = silent.drop_last();
        assert forall|k: int| j <= k < d.len() implies d[k] by {
            assert(d[k] == silent[k]);
        }
        if j > 0 {
            assert(d[j - 1] == silent[j - 1]);
        }
        lemma_trailing_run(d, j);
    }
}

/// Scanning back from the last window, step by step, gives the number of
/// samples that carry signal: the trailing silence is cut off when it spans at
/// least `silence_window` windows, and nothing is cut otherwise.
pub proof fn lemma_scan_finds_audible_length(
    silent: Seq<bool>,
    silence_window: int,
    window_size: int,
)
    requires
        silent.len() > 0,
        window_size >= 1,
    ensures
        silence_scan(silent, silent.len() - 1, 0, silence_window, window_size) == audible_length(
            silent,
            silence_window,
            window_size,
        ),
{
    lemma_scan_from(silent, silent.len() - 1, silence_window, window_size);
}

proof fn lemma_scan_from(silent: Seq<bool>, index: int, silence_window: int, window_size: int)
    requires
        0 <= index < silent.len(),
        window_size >= 1,
        forall|k: int| index < k < silent.len() ==> silent[k],
    ensures
        silence_scan(silent, index, silent.len() - 1 - index, silence_window, window_size)
            == audible_length(silent, silence_window, window_size),
    decreases index,
{
    let n = silent.len() as int;
    let count = n - 1 - index;
    if !silent[index] {
        lemma_trailing_run(silent, index + 1);
        assert(silence_scan(silent, index, count, silence_window, window_size) == silence_step(
            count,
            index,
            false,
            silence_window,
            window_size,
            n,
        )->0);
    } else if index == 0 {
        lemma_trailing_run(silent, 0);
        assert(silence_scan(silent, index, count, silence_window, window_size) == silence_step(
            count,
            index,
            true,
            silence_window,
            window_size,
            n,
        )->0);
    } else {
        lemma_scan_from(silent, index - 1, silence_window, window_size);
        assert(silence_step(count, index, true, silence_window, window_size, n) is None);
        assert(silence_scan(silent, index, count, silence_window, window_size) == silence_scan(
            silent,
            index - 1,
            count + 1,
            silence_window,
            window_size,
        ));
        assert(count + 1 == n - 1 - (index - 1));
    }
}

} // verus!

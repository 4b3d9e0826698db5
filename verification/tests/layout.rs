use audio_bench::alignment::search_window;
use audio_bench::patches::{extract_patch, patch_grid, patch_search_range, reference_patch_starts};
use audio_bench::peaks::select_spaced;
use audio_bench::silence::{trailing_silence_step, SilenceScan};
use audio_bench::segments::{frequency_band_split, interior_patch_range, segment_bounds};
use audio_bench::waveform::{column_range, waveform_layout, waveform_layout_checked};

#[test]
fn waveform_columns_tile_the_signal() {
    let l = waveform_layout(10, 3);
    assert_eq!(l.samples_per_pixel, 4);
    assert_eq!(l.pixel_count, 3);
    let ranges: Vec<(usize, usize)> =
        (0..l.pixel_count).map(|i| column_range(l.samples_per_pixel, 10, i)).collect();
    assert_eq!(ranges, vec![(0, 4), (4, 8), (8, 10)]);
}

#[test]
fn waveform_layout_edge_cases() {
    let l = waveform_layout(0, 100);
    assert_eq!((l.samples_per_pixel, l.pixel_count), (1, 0));
    let l = waveform_layout(100, 0);
    assert_eq!((l.samples_per_pixel, l.pixel_count), (1, 0));
    let l = waveform_layout(5, 100);
    assert_eq!((l.samples_per_pixel, l.pixel_count), (1, 5));
    // More than one sample per pixel can leave fewer columns than asked for.
    let l = waveform_layout(9, 8);
    assert_eq!((l.samples_per_pixel, l.pixel_count), (2, 5));
}

#[test]
fn patch_grid_positions() {
    let g = patch_grid(24, 10, 24, 8, 24, 1);
    assert_eq!(g, vec![(0, 0), (0, 1), (0, 2)]);
    let g = patch_grid(5, 5, 2, 2, 2, 3);
    assert_eq!(g, vec![(0, 0), (0, 3), (2, 0), (2, 3)]);
    assert!(patch_grid(24, 10, 24, 11, 24, 1).is_empty());
    assert!(patch_grid(24, 10, 0, 8, 24, 1).is_empty());
    assert!(patch_grid(24, 10, 24, 8, 24, 0).is_empty());
}

#[test]
fn reference_patches_start_half_a_patch_in() {
    assert_eq!(reference_patch_starts(20, 8), vec![4, 12]);
    assert_eq!(reference_patch_starts(11, 8), Vec::<usize>::new());
    assert_eq!(reference_patch_starts(12, 8), vec![4]);
    assert_eq!(reference_patch_starts(3, 1), vec![0, 1, 2]);
}

#[test]
fn patch_copy_pads_past_band_end() {
    let spectro = vec![vec![1, 2, 3], vec![4, 5], vec![6, 7, 8]];
    let p = extract_patch(&spectro, 1, 5, 1, 3, 0);
    assert_eq!(p, vec![vec![5, 0, 0], vec![7, 8, 0]]);
    let p = extract_patch(&spectro, 3, 2, 0, 2, 0);
    assert!(p.is_empty());
    let spectro_f = vec![vec![0.5f64, 1.5]];
    let p = extract_patch(&spectro_f, 0, 1, 0, 3, 0.0);
    assert_eq!(p, vec![vec![0.5, 1.5, 0.0]]);
}

#[test]
fn spaced_selection_keeps_far_candidates() {
    // candidates in order of preference
    let kept = select_spaced(&vec![100, 120, 300, 90, 500], 50, usize::MAX);
    assert_eq!(kept, vec![0, 2, 4]);
    let kept = select_spaced(&vec![100, 300, 500, 700], 50, 2);
    assert_eq!(kept, vec![0, 1]);
    let kept = select_spaced(&vec![100, 300], 50, 0);
    assert_eq!(kept, vec![0]);
    assert!(select_spaced(&vec![], 10, 10).is_empty());
    // a gap of exactly min_gap is allowed
    assert_eq!(select_spaced(&vec![10, 60], 50, 10), vec![0, 1]);
}

#[test]
fn segments_stay_in_recording() {
    assert_eq!(segment_bounds(100, 50, 1000), (100, 150));
    assert_eq!(segment_bounds(980, 50, 1000), (980, 1000));
    assert_eq!(segment_bounds(2000, 50, 1000), (1000, 1000));
}

#[test]
fn interior_patches() {
    assert_eq!(interior_patch_range(10), (1, 9));
    assert_eq!(interior_patch_range(4), (1, 3));
    assert_eq!(interior_patch_range(3), (0, 3));
    assert_eq!(interior_patch_range(0), (0, 0));
}

#[test]
fn band_split() {
    assert_eq!(frequency_band_split(32), (10, 11));
    assert_eq!(frequency_band_split(2), (1, 1));
    assert_eq!(frequency_band_split(0), (1, 0));
}

#[test]
fn search_windows() {
    assert_eq!(search_window(48000, 16000, 200000, 50000), (32000, 64000));
    assert_eq!(search_window(1000, 16000, 200000, 50000), (0, 17000));
    assert_eq!(search_window(140000, 16000, 200000, 50000), (124000, 150000));
    assert_eq!(search_window(10, 5, 100, 200), (5, 0));
}

fn scan_end(silent: &[bool], window: usize, window_size: usize) -> usize {
    let mut count = 0;
    for i in (0..silent.len()).rev() {
        match trailing_silence_step(count, i, silent[i], window, window_size, silent.len()) {
            SilenceScan::End { audio_end } => return audio_end,
            SilenceScan::Continue { silent_count } => count = silent_count,
        }
    }
    silent.len()
}

#[test]
fn trailing_silence_scan() {
    // two loud windows, then three silent ones: the signal is the first two
    assert_eq!(scan_end(&[false, false, true, true, true], 3, 1), 2);
    assert_eq!(scan_end(&[false, false, true, true, true], 2, 1), 2);
    // a trailing silence shorter than the silence window is kept
    assert_eq!(scan_end(&[false, true, false, true, true], 3, 1), 5);
    // a loud end keeps everything, whatever pause lies before it
    assert_eq!(scan_end(&[true, true, true, true, false], 2, 1), 5);
    // all silent: nothing carries signal
    assert_eq!(scan_end(&[true, true, true], 2, 1), 0);
    // windows of 2 samples: the first silent window already spans one quiet sample before it
    assert_eq!(scan_end(&[false, false, false, true, true, true], 2, 2), 2);
    assert!(matches!(
        trailing_silence_step(3, 1, false, 2, 1, 5),
        SilenceScan::End { audio_end: 2 }
    ));
    assert!(matches!(
        trailing_silence_step(1, 2, false, 2, 1, 5),
        SilenceScan::End { audio_end: 5 }
    ));
    assert!(matches!(
        trailing_silence_step(0, 4, true, 3, 1, 5),
        SilenceScan::Continue { silent_count: 1 }
    ));
}

#[test]
fn trailing_padding_is_cut_at_its_start() {
    // 1000 loud samples, then 1000 zeros, at 16 kHz: windows of 320 samples,
    // a window ending at sample i is silent once it holds no loud sample.
    let silent: Vec<bool> = (0..2000).map(|i| i >= 1000 + 319).collect();
    assert_eq!(scan_end(&silent, 320, 320), 1000);
}

#[test]
fn checked_layout_refuses_overflowing_sums() {
    assert!(waveform_layout_checked(usize::MAX, 2).is_none());
    assert!(waveform_layout_checked(usize::MAX - 3, 3).is_none());
    assert!(waveform_layout_checked(usize::MAX, 0).is_some());
    let l = waveform_layout_checked(10, 3).unwrap();
    assert_eq!((l.samples_per_pixel, l.pixel_count), (4, 3));
    // samples plus columns fits, samples plus samples per column does not
    let n = usize::MAX / 2 + 2;
    assert!(waveform_layout_checked(n, 1).is_none());
}

#[test]
fn patch_search_ranges() {
    assert_eq!(patch_search_range(20, 8, 100), (12, 28));
    assert_eq!(patch_search_range(5, 8, 100), (0, 13));
    assert_eq!(patch_search_range(90, 16, 100), (74, 100));
    assert_eq!(patch_search_range(8, 8, 3), (0, 3));
}

use audio_bench::decompress::{
    zstd_outcome, decompress_with_size_check, needs_extraction, verify_decompressed_size, DecompressError,
};
use audio_bench::{decompress_fast, decompress_zstd};

#[test]
fn test_zstd_roundtrip() {
    let original = b"Hello, AudioBench! This is a test message for zstd compression.";

    let compressed = zstd::encode_all(&original[..], 3).unwrap();

    let decompressed = decompress_zstd(&compressed).unwrap();

    assert_eq!(original.as_slice(), decompressed.as_slice());
}

#[test]
fn decompress_fast_roundtrip() {
    let original = vec![7u8; 1000];
    let compressed = zstd::encode_all(&original[..], 1).unwrap();
    assert_ne!(compressed, original);
    assert_eq!(decompress_fast(&compressed).unwrap(), original);
}

#[test]
fn decompress_rejects_garbage() {
    let r = decompress_zstd(b"definitely not a zstd frame");
    assert_eq!(r.unwrap_err(), "zstd 解压失败: Unknown frame descriptor");
    let r = decompress_fast(b"definitely not a zstd frame");
    assert_eq!(r.unwrap_err(), "zstd 解压失败: Unknown frame descriptor");
}

#[test]
fn decompress_empty_input_is_an_incomplete_frame() {
    assert_eq!(decompress_zstd(&[]).unwrap_err(), "zstd 解压失败: incomplete frame");
}

#[test]
fn fast_and_checked_decompression_agree() {
    let compressed = zstd::encode_all(&b"abc"[..], 3).unwrap();
    let mut cut = compressed.clone();
    cut.truncate(cut.len() - 2);
    for data in [&compressed[..], &cut[..], &b"xyz"[..]] {
        assert_eq!(decompress_fast(data), decompress_zstd(data));
    }
}

#[test]
fn size_check_accepts_exact_size() {
    let original = b"0123456789".to_vec();
    let compressed = zstd::encode_all(&original[..], 3).unwrap();
    assert_eq!(decompress_with_size_check(&compressed, 10).unwrap(), original);
}

#[test]
fn size_check_reports_mismatch() {
    let original = b"0123456789".to_vec();
    let compressed = zstd::encode_all(&original[..], 3).unwrap();
    match decompress_with_size_check(&compressed, 11) {
        Err(DecompressError::SizeMismatch { expected, actual }) => {
            assert_eq!(expected, 11);
            assert_eq!(actual, 10);
        }
        other => panic!("unexpected {:?}", other),
    }
    match decompress_with_size_check(b"garbage!", 8) {
        Err(DecompressError::Zstd { message }) => {
            assert_eq!(message, "zstd 解压失败: Unknown frame descriptor")
        }
        other => panic!("unexpected {:?}", other),
    }
}

#[test]
fn verify_size_directly() {
    assert_eq!(verify_decompressed_size(vec![1, 2, 3], 3).unwrap(), vec![1, 2, 3]);
    match verify_decompressed_size(vec![1, 2, 3], 0) {
        Err(DecompressError::SizeMismatch { expected: 0, actual: 3 }) => {}
        other => panic!("unexpected {:?}", other),
    }
}

#[test]
fn extraction_needed_unless_hash_matches() {
    assert!(needs_extraction(None, "0000000000000010"));
    assert!(!needs_extraction(Some("0000000000000010"), "0000000000000010"));
    assert!(needs_extraction(Some("0000000000000011"), "0000000000000010"));
    assert!(needs_extraction(Some(""), "0000000000000010"));
    assert!(!needs_extraction(Some(""), ""));
}

#[test]
fn decoder_outcome_prefixes_errors() {
    assert_eq!(zstd_outcome(Ok(vec![1, 2])).unwrap(), vec![1, 2]);
    assert_eq!(
        zstd_outcome(Err("Unknown frame descriptor".to_string())).unwrap_err(),
        "zstd 解压失败: Unknown frame descriptor"
    );
}

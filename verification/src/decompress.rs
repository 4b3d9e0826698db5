//! Decompression of the embedded zstd resources, the size check that guards a
//! fresh extraction, and the decision whether an extraction is needed at all.

use vstd::prelude::*;
use crate::text::{chars_of, equal_chars};

verus! {

/// What `zstd::stream::decode_all` makes of `data`: the decompressed bytes of
/// the frames it holds, or, when `data` is not a valid zstd stream, the text of
/// the error it reports (zstd's name for the failure, such as "Unknown frame
/// descriptor", or "incomplete frame" for a stream cut short).
pub uninterp spec fn zstd_decoding(data: Seq<u8>) -> Result<Seq<u8>, Seq<char>>;

/// Calls `zstd::stream::decode_all` on an in-memory buffer and gives its error
/// as text (`to_string` of the `std::io::Error`). Trusted: the call returns
/// what zstd decodes from `data`, or the text of the error it reports, and
/// both depend on `data` alone (`zstd_decoding`).
#[verifier::external_body]
fn zstd_decode_all(data: &[u8]) -> (r: Result<Vec<u8>, String>)
    ensures
        r is Ok <==> zstd_decoding(data@) is Ok,
        r matches Ok(v) ==> zstd_decoding(data@)->Ok_0 == v@,
        r matches Err(m) ==> zstd_decoding(data@)->Err_0 == m@,
{
    match zstd::stream::decode_all(data) {
        Ok(v) => Ok(v),
        Err(e) => Err(e.to_string()),
    }
}

/// The words that open the message of a failed decompression.
pub open spec fn zstd_failure_prefix() -> Seq<char> {
    "zstd 解压失败: "@
}

/// What decompressing `data` gives: the decoded bytes, or the message
/// "zstd 解压失败: " followed by the text of zstd's error.
pub open spec fn decompression_result(data: Seq<u8>) -> Result<Seq<u8>, Seq<char>> {
    match zstd_decoding(data) {
        Ok(v) => Ok(v),
        Err(m) => Err(zstd_failure_prefix() + m),
    }
}

/// Decompressing gives the whole decoded stream, byte for byte, exactly when
/// zstd decodes the data; otherwise the message is "zstd 解压失败: " followed
/// by zstd's error text.
pub proof fn lemma_decompression_keeps_whole_stream(data: Seq<u8>)
    ensures
        decompression_result(data) is Ok <==> zstd_decoding(data) is Ok,
        zstd_decoding(data) is Ok ==> decompression_result(data)->Ok_0 == zstd_decoding(
            data,
        )->Ok_0 && decompression_result(data)->Ok_0.len() == zstd_decoding(data)->Ok_0.len(),
        zstd_decoding(data) is Err ==> decompression_result(data)->Err_0 == zstd_failure_prefix()
            + zstd_decoding(data)->Err_0,
{
}

/// Why decompressing an embedded resource failed.
#[derive(Debug)]
pub enum DecompressError {
    /// zstd could not decode the data; the message says why.
    Zstd { message: String },
    /// The data decoded to a different number of bytes than expected.
    SizeMismatch { expected: usize, actual: usize },
}

/// Turns what the zstd decoder returned into the result of a decompression:
/// the bytes as they are, or its error text behind "zstd 解压失败: ".
pub fn zstd_outcome(decoded: Result<Vec<u8>, String>) -> (r: Result<Vec<u8>, String>)
    ensures
        decoded matches Ok(v) ==> (r matches Ok(w) && w@ == v@),
        decoded matches Err(m) ==> (r matches Err(t) && t@ == zstd_failure_prefix() + m@),
{
    match decoded {
        Ok(v) => Ok(v),
        Err(m) => {
            let mut t = String::from_str("zstd 解压失败: ");
            t.append(m.as_str());
            Err(t)
        },
    }
}

/// Decompresses zstd data held in memory.
pub fn decompress_zstd(compressed_data: &[u8]) -> (r: Result<Vec<u8>, String>)
    ensures
        r matches Ok(v) ==> decompression_result(compressed_data@) == Ok::<
            Seq<u8>,
            Seq<char>,
        >(v@),
        r matches Err(m) ==> decompression_result(compressed_data@) == Err::<
            Seq<u8>,
            Seq<char>,
        >(m@),
        r is Ok <==> zstd_decoding(compressed_data@) is Ok,
        r matches Ok(v) ==> v@ == zstd_decoding(compressed_data@)->Ok_0,
        r matches Err(m) ==> m@ == zstd_failure_prefix() + zstd_decoding(compressed_data@)->Err_0,
{
    proof {
        lemma_decompression_keeps_whole_stream(compressed_data@);
    }
    zstd_outcome(zstd_decode_all(compressed_data))
}

/// Decompresses zstd data held in memory, with no check of the result's size:
/// the same result as `decompress_zstd`.
pub fn decompress_fast(compressed_data: &[u8]) -> (r: Result<Vec<u8>, String>)
    ensures
        r matches Ok(v) ==> decompression_result(compressed_data@) == Ok::<
            Seq<u8>,
            Seq<char>,
        >(v@),
        r matches Err(m) ==> decompression_result(compressed_data@) == Err::<
            Seq<u8>,
            Seq<char>,
        >(m@),
        r is Ok <==> zstd_decoding(compressed_data@) is Ok,
        r matches Ok(v) ==> v@ == zstd_decoding(compressed_data@)->Ok_0,
        r matches Err(m) ==> m@ == zstd_failure_prefix() + zstd_decoding(compressed_data@)->Err_0,
{
    proof {
        lemma_decompression_keeps_whole_stream(compressed_data@);
    }
    zstd_outcome(zstd_decode_all(compressed_data))
}

/// Accepts freshly decompressed bytes only when there are exactly
/// `original_size` of them.
pub fn verify_decompressed_size(decompressed: Vec<u8>, original_size: usize) -> (r: Result<
    Vec<u8>,
    DecompressError,
>)
    ensures
        decompressed.len() == original_size ==> (r matches Ok(v) && v@ == decompressed@),
        decompressed.len() != original_size ==> (r matches Err(
            DecompressError::SizeMismatch { expected, actual },
        ) && expected == original_size && actual == decompressed.len()),
{
    if decompressed.len() != original_size {
        let actual = decompressed.len();
        Err(DecompressError::SizeMismatch { expected: original_size, actual })
    } else {
        Ok(decompressed)
    }
}

/// Decompresses an embedded resource and checks that it has the size it was
/// recorded with.
pub fn decompress_with_size_check(compressed_data: &[u8], original_size: usize) -> (r: Result<
    Vec<u8>,
    DecompressError,
>)
    ensures
        decompression_result(compressed_data@) matches Err(m) ==> (r matches Err(
            DecompressError::Zstd { message },
        ) && message@ == m),
        zstd_decoding(compressed_data@) matches Err(t) ==> (r matches Err(
            DecompressError::Zstd { message },
        ) && message@ == zstd_failure_prefix() + t),
        zstd_decoding(compressed_data@) matches Ok(d) ==> {
            &&& d.len() == original_size ==> (r matches Ok(v) && v@ == d)
            &&& d.len() != original_size ==> (r matches Err(
                DecompressError::SizeMismatch { expected, actual },
            ) && expected == original_size && actual == d.len())
        },
        decompression_result(compressed_data@) matches Ok(d) ==> {
            &&& d.len() == original_size ==> (r matches Ok(v) && v@ == d)
            &&& d.len() != original_size ==> (r matches Err(
                DecompressError::SizeMismatch { expected, actual },
            ) && expected == original_size && actual == d.len())
        },
{
    match decompress_zstd(compressed_data) {
        Ok(decompressed) => verify_decompressed_size(decompressed, original_size),
        Err(message) => Err(DecompressError::Zstd { message }),
    }
}

/// Whether an embedded file must be written out again. `stored_hash` is the
/// content of the hash file beside it when both the file and its hash file
/// exist (empty when the hash file could not be read), and `None` otherwise.
pub fn needs_extraction(stored_hash: Option<&str>, expected_hash: &str) -> (r: bool)
    ensures
        r == match stored_hash {
            None => true,
            Some(s) => s@ != expected_hash@,
        },
{
    match stored_hash {
        None => true,
        Some(s) => {
            let a = chars_of(s);
            let b = chars_of(expected_hash);
            !equal_chars(&a, &b)
        },
    }
}

} // verus!

//! Byte codecs the service relies on: URL-safe base64 without padding,
//! zlib at the best compression level, SHA-256, UTF-8 decoding, and random
//! bytes.
use vstd::prelude::*;

use base64::engine::general_purpose::URL_SAFE_NO_PAD;
use base64::Engine;
use flate2::read::ZlibDecoder;
use flate2::write::ZlibEncoder;
use flate2::Compression;
use rand::RngCore;
use sha2::Digest;
use std::io::Read;
use std::io::Write;
use vstd::utf8::{decode_utf8, valid_utf8};

verus! {

/// The view of a byte result whose error is a text.
pub open spec fn bytes_outcome(r: Result<Vec<u8>, String>) -> Result<Seq<u8>, Seq<char>> {
    match r {
        Ok(v) => Ok(v@),
        Err(e) => Err(e@),
    }
}

/// The text that base64's `URL_SAFE_NO_PAD` engine encodes `bytes` to.
pub uninterp spec fn b64url_encoded(bytes: Seq<u8>) -> Seq<char>;

/// What base64's `URL_SAFE_NO_PAD` engine decodes `text` to: the bytes, or
/// the text of its decode error.
pub uninterp spec fn b64url_decoded(text: Seq<char>) -> Result<Seq<u8>, Seq<char>>;

/// What flate2's `ZlibEncoder` at `Compression::best()` makes of `data`: the
/// compressed stream, or the text of the I/O error it reports.
pub uninterp spec fn zlib_compressed(data: Seq<u8>) -> Result<Seq<u8>, Seq<char>>;

/// What reading at most `limit` bytes out of flate2's `ZlibDecoder` over
/// `data` gives: those bytes, or the text of the I/O error it reports.
pub uninterp spec fn zlib_inflated(data: Seq<u8>, limit: nat) -> Result<Seq<u8>, Seq<char>>;

/// The SHA-256 digest of `data`.
pub uninterp spec fn sha256(data: Seq<u8>) -> Seq<u8>;

/// The text that `FromUtf8Error` displays for the invalid UTF-8 `bytes`.
pub uninterp spec fn utf8_error_text(bytes: Seq<u8>) -> Seq<char>;

/// `URL_SAFE_NO_PAD.encode(bytes)` (base64, URL-safe alphabet, no padding).
/// The contract names the result; the length bound excludes inputs whose
/// output length would overflow, which no slice in memory reaches.
#[verifier::external_body]
pub(crate) fn b64url_encode(bytes: &[u8]) -> (res: String)
    requires
        bytes@.len() <= isize::MAX,
    ensures
        res@ == b64url_encoded(bytes@),
{
    URL_SAFE_NO_PAD.encode(bytes)
}

/// `URL_SAFE_NO_PAD.decode(text)`, with the error as its display text. The
/// contract names the result, and states that decoding what the engine
/// encoded gives back the bytes.
#[verifier::external_body]
pub(crate) fn b64url_decode(text: &str) -> (res: Result<Vec<u8>, String>)
    ensures
        bytes_outcome(res) == b64url_decoded(text@),
        res matches Ok(v) ==> forall|b: Seq<u8>| #[trigger] b64url_encoded(b) == text@ ==> v@ == b,
        res is Err ==> forall|b: Seq<u8>| #[trigger] b64url_encoded(b) != text@,
        res matches Ok(v) ==> v@.len() <= isize::MAX,
{
    URL_SAFE_NO_PAD.decode(text).map_err(|e| e.to_string())
}

/// Writes `data` through flate2's `ZlibEncoder::new(Vec::new(),
/// Compression::best())` and finishes the stream. The contract names the
/// outcome; a `Vec` never holds more than `isize::MAX` bytes.
#[verifier::external_body]
pub(crate) fn zlib_compress(data: &[u8]) -> (res: Result<Vec<u8>, String>)
    ensures
        bytes_outcome(res) == zlib_compressed(data@),
        res matches Ok(v) ==> v@.len() <= isize::MAX,
{
    let mut encoder = ZlibEncoder::new(Vec::new(), Compression::best());
    encoder.write_all(data).map_err(|e| e.to_string())?;
    encoder.finish().map_err(|e| e.to_string())
}

/// Reads at most `limit` bytes out of flate2's `ZlibDecoder` over `data`
/// (`ZlibDecoder::new(data).take(limit).read_to_end(..)`). The contract names
/// the outcome and bounds its length by `limit`. A stream that `zlib_compress`
/// made of the bytes `x` decodes without error to `x`, cut to its first
/// `limit` bytes when it is longer (`Read::take` stops there).
#[verifier::external_body]
pub(crate) fn zlib_decompress(data: &[u8], limit: u64) -> (res: Result<Vec<u8>, String>)
    ensures
        bytes_outcome(res) == zlib_inflated(data@, limit as nat),
        res matches Ok(v) ==> v@.len() <= limit,
        forall|x: Seq<u8>|
            #[trigger] zlib_compressed(x) is Ok && zlib_compressed(x)->Ok_0 == data@ ==> (res is Ok
                && res->Ok_0@ == (if x.len() <= limit {
                x
            } else {
                x.take(limit as int)
            })),
{
    let mut out = Vec::new();
    ZlibDecoder::new(data).take(limit).read_to_end(&mut out).map_err(|e| e.to_string())?;
    Ok(out)
}

/// `Sha256::digest(data)`: the contract names the digest and states its
/// length of 32 bytes.
#[verifier::external_body]
pub(crate) fn sha256_digest(data: &[u8]) -> (res: Vec<u8>)
    ensures
        res@ == sha256(data@),
        res@.len() == 32,
{
    sha2::Sha256::digest(data).to_vec()
}

/// `String::from_utf8(bytes)`, with the error as its display text: it
/// succeeds exactly on valid UTF-8, with the characters that the bytes
/// encode.
#[verifier::external_body]
pub(crate) fn string_from_utf8(bytes: Vec<u8>) -> (res: Result<String, String>)
    ensures
        res is Ok == valid_utf8(bytes@),
        res matches Ok(s) ==> s@ == decode_utf8(bytes@),
        res matches Err(m) ==> m@ == utf8_error_text(bytes@),
{
    String::from_utf8(bytes).map_err(|e| e.to_string())
}

/// `n` bytes from `rand::thread_rng()`: only their number is stated, since
/// they are random.
#[verifier::external_body]
pub(crate) fn random_bytes(n: usize) -> (res: Vec<u8>)
    ensures
        res@.len() == n,
{
    let mut buf = vec![0u8; n];
    rand::thread_rng().fill_bytes(&mut buf);
    buf
}

} // verus!

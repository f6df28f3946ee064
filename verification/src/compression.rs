//! Zstandard compression of chunk payloads.

use vstd::prelude::*;

use crate::error::Error;

verus! {

/// The bytes `zstd::encode_all` produces for `data` at `level`.
pub uninterp spec fn zstd_encoded(data: Seq<u8>, level: i32) -> Seq<u8>;

/// The bytes `zstd::decode_all` recovers from `data`, or `None` when
/// `data` is not a valid zstd stream.
pub uninterp spec fn zstd_decoded(data: Seq<u8>) -> Option<Seq<u8>>;

/// Calls `zstd::encode_all(data, level)`. Claims: the call succeeds (it
/// reads a slice into a vector and zstd clamps the level into its range;
/// running out of memory, which aborts, is left aside), its result is
/// `zstd_encoded(data, level)`, and decoding it gives `data` back (zstd is
/// lossless).
#[verifier::external_body]
fn zstd_encode_all(data: &[u8], level: i32) -> (r: Result<Vec<u8>, String>)
    ensures
        r is Ok,
        r matches Ok(v) ==> v@ == zstd_encoded(data@, level) && zstd_decoded(v@) == Some(data@),
{
    zstd::encode_all(data, level).map_err(|e| e.to_string())
}

/// Calls `zstd::decode_all(data)`. Claims: the result is
/// `zstd_decoded(data)`: the recovered bytes for a valid zstd stream, an
/// error for anything else.
#[verifier::external_body]
fn zstd_decode_all(data: &[u8]) -> (r: Result<Vec<u8>, String>)
    ensures
        match zstd_decoded(data@) {
            Some(v) => r matches Ok(w) && w@ == v,
            None => r is Err,
        },
{
    zstd::decode_all(data).map_err(|e| e.to_string())
}

/// Compress `data` at `level`: always succeeds, with the zstd frame of
/// `data`, which decodes back to `data`.
pub fn compress(data: &[u8], level: i32) -> (r: Result<Vec<u8>, Error>)
    ensures
        r matches Ok(v) && v@ == zstd_encoded(data@, level) && zstd_decoded(v@) == Some(data@),
{
    match zstd_encode_all(data, level) {
        Ok(v) => Ok(v),
        Err(m) => Err(Error::Compression(m)),
    }
}

/// Decompress `data`: the bytes of a valid zstd stream, a decompression
/// error for anything else.
pub fn decompress(data: &[u8]) -> (r: Result<Vec<u8>, Error>)
    ensures
        match zstd_decoded(data@) {
            Some(v) => r matches Ok(w) && w@ == v,
            None => r matches Err(Error::Decompression(_)),
        },
{
    match zstd_decode_all(data) {
        Ok(v) => Ok(v),
        Err(m) => Err(Error::Decompression(m)),
    }
}

/// Chunk compressor at a fixed level.
pub struct Compressor {
    pub level: i32,
}

impl Compressor {
    /// A compressor at `level`.
    pub fn new(level: i32) -> (r: Self)
        ensures
            r.level == level,
    {
        Compressor { level }
    }

    /// Compress one chunk: the same result as [`compress`] at this
    /// compressor's level.
    pub fn compress(&self, data: &[u8]) -> (r: Result<Vec<u8>, Error>)
        ensures
            r matches Ok(v) && v@ == zstd_encoded(data@, self.level) && zstd_decoded(v@) == Some(
                data@,
            ),
    {
        compress(data, self.level)
    }
}

/// Chunk decompressor.
pub struct Decompressor;

impl Decompressor {
    /// A decompressor.
    pub fn new() -> (r: Self) {
        Decompressor
    }

    /// Decompress one chunk: the same result as [`decompress`].
    pub fn decompress(&self, data: &[u8]) -> (r: Result<Vec<u8>, Error>)
        ensures
            match zstd_decoded(data@) {
                Some(v) => r matches Ok(w) && w@ == v,
                None => r matches Err(Error::Decompression(_)),
            },
    {
        decompress(data)
    }
}

impl Default for Decompressor {
    fn default() -> (r: Self) {
        Decompressor
    }
}

/// Round trip: `compress` always succeeds, and the frame it returns for
/// `data` at any `level` (the frame `zstd_encoded(data, level)`, which
/// decodes to `data`) is one that `decompress` accepts, returning `data`.
pub proof fn lemma_compress_roundtrip(data: Seq<u8>, level: i32, frame: Seq<u8>)
    requires
        frame == zstd_encoded(data, level),
        zstd_decoded(frame) == Some(data),
    ensures
        zstd_decoded(frame) matches Some(v) && v == data,
{
}

} // verus!

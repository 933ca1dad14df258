//! DEFLATE compression. Streams are written by the `flate2` crate and read
//! back by `miniz_oxide`, the decoder underneath it, in its one-shot form,
//! which takes a stream only if it is there to its end. A second call tells
//! where the stream ended, so that bytes after its end are not passed over.
//! What the compressed bytes are is not written out here: the results are
//! named, and the calls are trusted to compute them.

use flate2::write::DeflateEncoder;
use flate2::Compression;
use miniz_oxide::inflate::decompress_to_vec_with_limit;
use std::io::Write;
use vstd::prelude::*;

verus! {

/// The raw DEFLATE stream that `flate2` writes for `data` at its best
/// compression level, or `None` where its encoder reports an error.
pub uninterp spec fn deflated(data: Seq<u8>) -> Option<Seq<u8>>;

/// The bytes that `miniz_oxide` inflates the raw DEFLATE stream `stream` to
/// when it may write at most `limit` bytes, or `None` where it rejects the
/// stream or the bytes are more than that.
pub uninterp spec fn inflated(stream: Seq<u8>, limit: nat) -> Option<Seq<u8>>;

/// The number of bytes of `stream` that `miniz_oxide` reads when it inflates
/// the stream into a buffer of `room` bytes.
pub uninterp spec fn stream_read(stream: Seq<u8>, room: nat) -> nat;

/// What `inflate` returns for `stream`: what the stream inflates to within
/// the longest vector there can be, where the stream is read to its last
/// byte.
pub open spec fn inflate_spec(stream: Seq<u8>) -> Option<Seq<u8>> {
    match inflated(stream, isize::MAX as nat) {
        Some(data) => if stream_read(stream, data.len()) == stream.len() {
            Some(data)
        } else {
            None
        },
        None => None,
    }
}

/// Runs a `flate2::write::DeflateEncoder` over a `Vec` at
/// `Compression::best()`: `new`, `write_all`, `finish`. Trusted: the outcome
/// depends on `data` alone, and a stream that the encoder hands out is a
/// complete one, with nothing after its end, that the inflater turns back
/// into `data` (DEFLATE is lossless).
#[verifier::external_body]
pub(crate) fn deflate(data: &[u8]) -> (stream: Option<Vec<u8>>)
    ensures
        stream matches Some(s) ==> deflated(data@) == Some(s@),
        stream matches Some(s) ==> inflated(s@, isize::MAX as nat) == Some(data@),
        stream matches Some(s) ==> stream_read(s@, data@.len()) == s@.len(),
        stream is None ==> deflated(data@) is None,
{
    let mut encoder = DeflateEncoder::new(Vec::new(), Compression::best());
    match encoder.write_all(data) {
        Ok(()) => encoder.finish().ok(),
        Err(_) => None,
    }
}

/// Calls `miniz_oxide::inflate::decompress_to_vec_with_limit`. Trusted: the
/// outcome depends on `stream` and `limit` alone, and what comes out is no
/// longer than `limit`. The call allocates up to `limit` bytes, so
/// `requires` keeps `limit` to what a vector can hold.
#[verifier::external_body]
fn inflate_to_vec(stream: &[u8], limit: usize) -> (data: Option<Vec<u8>>)
    requires
        limit <= isize::MAX,
    ensures
        data matches Some(d) ==> inflated(stream@, limit as nat) == Some(d@),
        data matches Some(d) ==> d@.len() <= limit,
        data is None ==> inflated(stream@, limit as nat) is None,
{
    decompress_to_vec_with_limit(stream, limit).ok()
}

/// Calls `miniz_oxide::inflate::core::decompress` on a fresh
/// `DecompressorOxide`, with an output buffer of `room` bytes that does not
/// wrap, and hands on the second part of what it returns: the number of
/// input bytes read. Trusted: that number depends on `stream` and `room`
/// alone. The call allocates the buffer, so `requires` keeps `room` to what
/// a vector can hold.
#[verifier::external_body]
fn inflate_read(stream: &[u8], room: usize) -> (read: usize)
    requires
        room <= isize::MAX,
    ensures
        read == stream_read(stream@, room as nat),
{
    let mut out = vec![0u8; room];
    let mut state = miniz_oxide::inflate::core::DecompressorOxide::new();
    let flags = miniz_oxide::inflate::core::inflate_flags::TINFL_FLAG_USING_NON_WRAPPING_OUTPUT_BUF;
    miniz_oxide::inflate::core::decompress(&mut state, stream, &mut out, 0, flags).1
}

/// Inflates `stream`: the bytes it was compressed from, or `None` where it
/// is not a complete DEFLATE stream or goes on after the stream's end.
pub fn inflate(stream: &[u8]) -> (data: Option<Vec<u8>>)
    ensures
        match data {
            Some(d) => inflate_spec(stream@) == Some(d@),
            None => inflate_spec(stream@) is None,
        },
{
    match inflate_to_vec(stream, isize::MAX as usize) {
        Some(data) => {
            if inflate_read(stream, data.len()) == stream.len() {
                Some(data)
            } else {
                None
            }
        },
        None => None,
    }
}

} // verus!

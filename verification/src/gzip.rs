//! Gzip compression, done by `flate2`.

use flate2::read::GzDecoder;
use flate2::write::GzEncoder;
use flate2::Compression;
use std::io::{Read, Write};
use vstd::prelude::*;
use crate::error::{Error, ErrorView};

verus! {

/// The gzip stream that the encoder makes of some bytes at its default
/// level. It holds no time and no trace of the machine.
pub uninterp spec fn gzip_of(data: Seq<u8>) -> Seq<u8>;

/// What a gzip stream holds; `None` for bytes that the decoder does not
/// read to their end as a gzip stream.
pub uninterp spec fn gunzip_of(data: Seq<u8>) -> Option<Seq<u8>>;

/// `GzEncoder` at the default level, fed with `write_all` and closed with
/// `finish`: the gzip stream of the bytes, which the decoder reads back to
/// the same bytes. The encoder fails only where writing to its sink fails
/// or the compressor is misused; the sink is a `Vec<u8>`, and the
/// compressor is fed once and finished once, so the call succeeds.
#[verifier::external_body]
fn gzip(data: &[u8]) -> (r: Result<Vec<u8>, String>)
    ensures
        r is Ok,
        r matches Ok(packed) ==> packed@ == gzip_of(data@) && gunzip_of(packed@) == Some(data@),
{
    let mut encoder = GzEncoder::new(Vec::new(), Compression::default());
    encoder.write_all(data).and_then(|_| encoder.finish()).map_err(|e| e.to_string())
}

/// `GzDecoder`, read to its end: what the stream holds, or the message of
/// the error.
#[verifier::external_body]
fn gunzip(data: &[u8]) -> (r: Result<Vec<u8>, String>)
    ensures
        match r {
            Ok(plain) => gunzip_of(data@) == Some(plain@),
            Err(_) => gunzip_of(data@) is None,
        },
{
    let mut plain = Vec::new();
    GzDecoder::new(data).read_to_end(&mut plain).map(|_| plain).map_err(|e| e.to_string())
}

/// What is made of the result of the encoder or the decoder: its bytes, or
/// an I/O error with its message.
pub fn stream_verdict(result: Result<Vec<u8>, String>) -> (r: Result<Vec<u8>, Error>)
    ensures
        match result {
            Ok(bytes) => r == Ok::<Vec<u8>, Error>(bytes),
            Err(message) => r matches Err(error) && error.deep_view() == ErrorView::Io(message@),
        },
{
    match result {
        Ok(bytes) => Ok(bytes),
        Err(message) => Err(Error::Io(message)),
    }
}

/// Compresses bytes: the gzip stream of the bytes, which decompresses to
/// the same bytes.
pub fn compress(data: &[u8]) -> (r: Result<Vec<u8>, Error>)
    ensures
        r matches Ok(packed) && packed@ == gzip_of(data@) && gunzip_of(packed@) == Some(data@),
{
    stream_verdict(gzip(data))
}

/// Decompresses a gzip stream.
pub fn decompress(data: &[u8]) -> (r: Result<Vec<u8>, Error>)
    ensures
        match r {
            Ok(plain) => gunzip_of(data@) == Some(plain@),
            Err(error) => gunzip_of(data@) is None && error is Io,
        },
{
    stream_verdict(gunzip(data))
}

} // verus!

//! Decompressing downloaded files: xz through the `xz` crate, gzip through
//! `flate2`.

use std::io::Read;
use vstd::prelude::*;
use crate::install::Codec;

verus! {

/// Declares `std::io::Error`, the error a failed decompression reports.
#[verifier::external_type_specification]
#[verifier::external_body]
pub struct ExIoError(std::io::Error);

/// What `xz::read::XzDecoder` reads out of `data` to its end: the
/// decompressed first xz stream, or nothing when that fails. It depends on the
/// bytes alone.
pub uninterp spec fn xz_decoded(data: Seq<u8>) -> Option<Seq<u8>>;

/// What `flate2::read::GzDecoder` reads out of `data` to its end: the
/// decompressed gzip member, or nothing when that fails. It depends on the
/// bytes alone.
pub uninterp spec fn gzip_decoded(data: Seq<u8>) -> Option<Seq<u8>>;

/// Reads `xz::read::XzDecoder::new(data)` to its end. The contract claims
/// only that success and the bytes read are those determined by `data`
/// (`xz_decoded`); the format itself is left unsaid.
#[verifier::external_body]
fn xz_decode(data: &[u8]) -> (r: Result<Vec<u8>, std::io::Error>)
    ensures
        match r {
            Ok(v) => xz_decoded(data@) == Some(v@),
            Err(_) => xz_decoded(data@) is None,
        },
{
    let mut out: Vec<u8> = Vec::new();
    match xz::read::XzDecoder::new(data).read_to_end(&mut out) {
        Ok(_) => Ok(out),
        Err(e) => Err(e),
    }
}

/// Reads `flate2::read::GzDecoder::new(data)` to its end. The contract claims
/// only that success and the bytes read are those determined by `data`
/// (`gzip_decoded`); the format itself is left unsaid.
#[verifier::external_body]
fn gzip_decode(data: &[u8]) -> (r: Result<Vec<u8>, std::io::Error>)
    ensures
        match r {
            Ok(v) => gzip_decoded(data@) == Some(v@),
            Err(_) => gzip_decoded(data@) is None,
        },
{
    let mut out: Vec<u8> = Vec::new();
    match flate2::read::GzDecoder::new(data).read_to_end(&mut out) {
        Ok(_) => Ok(out),
        Err(e) => Err(e),
    }
}

/// What decompressing `data` with `codec` gives.
pub open spec fn decompressed(codec: Codec, data: Seq<u8>) -> Option<Seq<u8>> {
    match codec {
        Codec::Xz => xz_decoded(data),
        Codec::Gzip => gzip_decoded(data),
    }
}

/// Decompresses the bytes of a downloaded file with `codec`.
pub fn decompress(codec: Codec, data: &[u8]) -> (r: Result<Vec<u8>, std::io::Error>)
    ensures
        match r {
            Ok(v) => decompressed(codec, data@) == Some(v@),
            Err(_) => decompressed(codec, data@) is None,
        },
{
    match codec {
        Codec::Xz => xz_decode(data),
        Codec::Gzip => gzip_decode(data),
    }
}

} // verus!

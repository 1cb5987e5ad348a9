//! The zstd codec: one frame in, one buffer out.
//!
//! Nothing in this module is proved. Both functions hand one call to the
//! `zstd` crate and give its result a name.

use vstd::prelude::*;

verus! {

#[verifier::external_type_specification]
#[verifier::external_body]
pub struct ExIoError(std::io::Error);

/// The effort at which archives are compressed: the highest that zstd offers.
pub const COMPRESSION_LEVEL: i32 = 22;

/// What `zstd::stream::encode_all` writes for `data` at `level`. `None`
/// where it fails.
pub uninterp spec fn zstd_encoded(data: Seq<u8>, level: i32) -> Option<Seq<u8>>;

/// What `zstd::stream::decode_all` reads out of `data`: the content of every
/// frame in it, one after the other. `None` where it fails, as it does on
/// bytes that are no zstd stream or that stop inside a frame.
pub uninterp spec fn zstd_decoded(data: Seq<u8>) -> Option<Seq<u8>>;

/// Calls `zstd::stream::encode_all` on a slice.
/// Claimed: the result is `zstd_encoded` of the arguments, and nothing else.
#[verifier::external_body]
pub(crate) fn compress(data: &[u8], level: i32) -> (r: Result<Vec<u8>, std::io::Error>)
    ensures
        match r {
            Ok(out) => zstd_encoded(data@, level) == Some(out@),
            Err(_) => zstd_encoded(data@, level) is None,
        },
{
    zstd::stream::encode_all(data, level)
}

/// Calls `zstd::stream::decode_all` on a slice.
/// Claimed: the result is `zstd_decoded` of the bytes, and nothing else.
#[verifier::external_body]
pub(crate) fn decompress(data: &[u8]) -> (r: Result<Vec<u8>, std::io::Error>)
    ensures
        match r {
            Ok(out) => zstd_decoded(data@) == Some(out@),
            Err(_) => zstd_decoded(data@) is None,
        },
{
    zstd::stream::decode_all(data)
}

} // verus!

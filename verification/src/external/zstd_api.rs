//! zstd frames through the `zstd` crate.
use vstd::prelude::*;

verus! {

/// The bytes `zstd::encode_all` produces from `data` at compression level
/// `level` when it succeeds (zstd is deterministic for given input and
/// level).
pub uninterp spec fn zstd_compressed(data: Seq<u8>, level: int) -> Seq<u8>;

/// What `zstd::decode_all` gives for `data`: the decompressed bytes, or
/// `None` when it fails.
pub uninterp spec fn zstd_decoded(data: Seq<u8>) -> Option<Seq<u8>>;

/// `zstd::encode_all(data, level)`: compresses `data` into one zstd frame.
/// Claimed: it succeeds (on a slice, compression fails only where memory
/// cannot be had, and the level is clamped to zstd's range), yielding
/// [`zstd_compressed`] of the arguments, at least 6 bytes long (a frame
/// header alone takes `ZSTD_FRAMEHEADERSIZE_MIN`, 6 bytes, in zstd's
/// format), and decoding that frame gives `data` back (the crate's own
/// round-trip tests check this).
#[verifier::external_body]
pub(crate) fn zstd_encode_all(data: &[u8], level: i32) -> (r: Result<Vec<u8>, ()>)
    ensures
        r is Ok,
        r matches Ok(v) ==> v@.len() >= 6,
        r matches Ok(v) ==> v@ == zstd_compressed(data@, level as int),
        r matches Ok(v) ==> zstd_decoded(v@) == Some(data@),
{
    zstd::encode_all(data, level).map_err(|_| ())
}

/// `zstd::decode_all(data)`: decompresses all zstd frames in `data`.
/// Claimed: the outcome is [`zstd_decoded`] of the input.
#[verifier::external_body]
pub(crate) fn zstd_decode_all(data: &[u8]) -> (r: Result<Vec<u8>, ()>)
    ensures
        match r {
            Ok(v) => zstd_decoded(data@) == Some(v@),
            Err(_) => zstd_decoded(data@) is None,
        },
{
    zstd::decode_all(data).map_err(|_| ())
}

} // verus!

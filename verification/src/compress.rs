//! Zstandard compression of cache payloads.
use vstd::prelude::*;

use std::io::Read;

verus! {

#[verifier::external_type_specification]
#[verifier::external_body]
pub struct ExIoError(std::io::Error);

/// What zstd's streaming decoder yields for `compressed` when at most
/// `limit` bytes are read from it: the bytes, or `None` when it fails.
pub uninterp spec fn zstd_decompressed(compressed: Seq<u8>, limit: u64) -> Option<Seq<u8>>;

/// The zstd frame that zstd's encoder writes for `data` at `level`, or `None`
/// when it fails.
pub uninterp spec fn zstd_compressed(data: Seq<u8>, level: i32) -> Option<Seq<u8>>;

/// The first `limit` bytes of `data`, or all of it when it is shorter.
pub open spec fn prefix_upto(data: Seq<u8>, limit: u64) -> Seq<u8> {
    if limit <= data.len() {
        data.take(limit as int)
    } else {
        data
    }
}

/// Decompresses `compressed` with `zstd::stream::Decoder`, reading at most
/// `limit` decompressed bytes. Trusted: whether it fails and what it yields
/// depend on the two arguments alone (they are named by
/// [`zstd_decompressed`]), and `Read::take` yields no more than `limit` bytes.
#[verifier::external_body]
pub(crate) fn zstd_decode_limited(compressed: &[u8], limit: u64) -> (r: Result<Vec<u8>, std::io::Error>)
    ensures
        r is Ok <==> zstd_decompressed(compressed@, limit) is Some,
        r matches Ok(v) ==> Some(v@) == zstd_decompressed(compressed@, limit),
        r matches Ok(v) ==> v@.len() <= limit,
{
    let decoder = zstd::stream::Decoder::new(compressed)?;
    let mut out = Vec::new();
    decoder.take(limit).read_to_end(&mut out)?;
    Ok(out)
}

/// Compresses `data` into one zstd frame with `zstd::stream::encode_all`.
/// Trusted: the frame depends on the two arguments alone (it is named by
/// [`zstd_compressed`]), and zstd is lossless, so decoding the frame with any
/// read limit yields the first `limit` bytes of `data`.
#[verifier::external_body]
pub(crate) fn zstd_encode(data: &[u8], level: i32) -> (r: Result<Vec<u8>, std::io::Error>)
    ensures
        r is Ok <==> zstd_compressed(data@, level) is Some,
        r matches Ok(c) ==> Some(c@) == zstd_compressed(data@, level),
        r matches Ok(c) ==> forall|limit: u64|
            #[trigger] zstd_decompressed(c@, limit) == Some(prefix_upto(data@, limit)),
{
    zstd::stream::encode_all(data, level)
}

} // verus!

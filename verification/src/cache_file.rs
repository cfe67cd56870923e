//! Feature cache files: a [`CacheV5Header`] followed by the zstd-compressed
//! payload. This module decides what a cache file must contain to be trusted,
//! builds the bytes that are written, and checks and decodes the bytes that
//! are read back.
use vstd::prelude::*;

use crate::cache_key::{compute_cache_key, cache_key_of};
use crate::compress::{prefix_upto, zstd_compressed, zstd_decode_limited, zstd_decompressed, zstd_encode};
use crate::header::{
    decode_header, header_bytes, header_from_slice, lemma_decode_header, lemma_header_bytes_injective,
    lemma_header_bytes_len, CacheV5Header,
    CACHE_V5_FORMAT_VERSION, CACHE_V5_HEADER_SIZE, CACHE_V5_MAGIC,
};
use crate::payload::{
    lemma_payload_bytes_injective, lemma_payload_bytes_len, matrix_has_shape, parse_v5_payload, payload_bytes, payload_has_shape, payload_len,
    payload_parse_error, serialize_v5_payload, v5_payload_upper_bound, PayloadError, PayloadParts,
};

verus! {

/// Largest number of frames a cache file may hold.
pub const MAX_CACHE_FRAME_COUNT: usize = 120000;

/// Largest number of MGC dimensions a cache file may hold.
pub const MAX_CACHE_MGC_DIMS: usize = 256;

/// Largest number of BAP dimensions a cache file may hold.
pub const MAX_CACHE_BAP_DIMS: usize = 64;

/// Largest decompressed payload a cache file may declare.
pub const MAX_CACHE_PAYLOAD_SIZE: usize = 67108864;

/// The analysis settings a cache file has to match.
#[derive(Clone, Copy, PartialEq, Eq, Debug)]
pub struct CacheSettings {
    pub sample_rate: u32,
    /// The frame period in whole microseconds.
    pub frame_period_micros: u32,
    /// When set, a cache is accepted whatever its key says about the source.
    pub ignore_cache_hash_verification: bool,
}

/// The dimensions of a set of features that is about to be cached.
#[derive(Clone, Copy, PartialEq, Eq, Debug)]
pub struct FeatureShape {
    /// Number of F0 frames.
    pub frame_count: usize,
    pub mgc_rows: usize,
    pub mgc_cols: usize,
    pub bap_rows: usize,
    pub bap_cols: usize,
}

/// Why a cache file was not written or not accepted.
#[derive(Clone, Copy, PartialEq, Eq, Debug)]
pub enum CacheError {
    /// The file is shorter than a header.
    TruncatedHeader,
    /// The file does not start with the cache magic.
    BadMagic,
    FormatVersionMismatch { found: u32 },
    /// The cache key does not match the source file and settings.
    CacheKeyMismatch,
    SampleRateMismatch { expected: u32, found: u32 },
    FramePeriodMismatch { expected: u32, found: u32 },
    FrameCountTooLarge { frame_count: usize },
    MgcDimsOutOfRange { mgc_dims: usize },
    BapDimsOutOfRange { bap_dims: usize },
    PayloadTooLarge { payload_size: usize },
    PayloadExceedsShape { payload_size: usize, upper_bound: usize },
    MgcRowsMismatch { rows: usize, frames: usize },
    BapRowsMismatch { rows: usize, frames: usize },
    /// zstd could not decompress the payload.
    Decompression,
    /// zstd could not compress the payload.
    Compression,
    /// The decompressed payload does not have the size the header declares.
    PayloadSizeMismatch { declared: usize, actual: usize },
    /// The payload bytes do not decode.
    Payload(PayloadError),
}

/// The first reason, in the order they are checked, for which header `h` is
/// not trusted under settings `s` for a source whose hash is `source_hash`.
pub open spec fn header_error(h: CacheV5Header, s: CacheSettings, source_hash: u64) -> Option<CacheError> {
    if h.magic@ != CACHE_V5_MAGIC@ {
        Some(CacheError::BadMagic)
    } else if h.format_version != CACHE_V5_FORMAT_VERSION {
        Some(CacheError::FormatVersionMismatch { found: h.format_version })
    } else if !s.ignore_cache_hash_verification && h.cache_key != cache_key_of(
        s.sample_rate,
        s.frame_period_micros,
        source_hash,
    ) {
        Some(CacheError::CacheKeyMismatch)
    } else if h.sample_rate != s.sample_rate {
        Some(CacheError::SampleRateMismatch { expected: s.sample_rate, found: h.sample_rate })
    } else if h.frame_period_micros != s.frame_period_micros {
        Some(
            CacheError::FramePeriodMismatch {
                expected: s.frame_period_micros,
                found: h.frame_period_micros,
            },
        )
    } else {
        None
    }
}

/// A trusted header is one this library wrote for exactly these analysis
/// settings: it carries the cache magic and format version, the settings'
/// sample rate and frame period, and (unless key checks are switched off) the
/// key of this source; and every such header is trusted. Whether or not the
/// key is checked, features analysed at another sample rate or frame period
/// are never trusted.
pub proof fn law_trusted_header_matches_settings(h: CacheV5Header, s: CacheSettings, source_hash: u64)
    ensures
        header_error(h, s, source_hash) is None <==> {
            &&& h.magic@ == CACHE_V5_MAGIC@
            &&& h.format_version == CACHE_V5_FORMAT_VERSION
            &&& h.sample_rate == s.sample_rate
            &&& h.frame_period_micros == s.frame_period_micros
            &&& (!s.ignore_cache_hash_verification ==> h.cache_key == cache_key_of(
                s.sample_rate,
                s.frame_period_micros,
                source_hash,
            ))
        },
        h.magic@ == CACHE_V5_MAGIC@ && h.format_version == CACHE_V5_FORMAT_VERSION && (
        s.ignore_cache_hash_verification || h.cache_key == cache_key_of(
            s.sample_rate,
            s.frame_period_micros,
            source_hash,
        )) && h.sample_rate == s.sample_rate && h.frame_period_micros != s.frame_period_micros
            ==> header_error(h, s, source_hash) == Some(
            CacheError::FramePeriodMismatch {
                expected: s.frame_period_micros,
                found: h.frame_period_micros,
            },
        ),
{
}

/// A file written under one frame period is refused, with a frame-period
/// mismatch, when it is read under another one (same sample rate and source).
pub proof fn law_other_frame_period_is_refused(
    frame_count: usize,
    mgc_dims: usize,
    bap_dims: usize,
    payload_size: usize,
    written: CacheSettings,
    read: CacheSettings,
    source_hash: u64,
)
    requires
        read.sample_rate == written.sample_rate,
        read.frame_period_micros != written.frame_period_micros,
        read.ignore_cache_hash_verification,
    ensures
        header_error(
            written_header(frame_count, mgc_dims, bap_dims, payload_size, written, source_hash),
            read,
            source_hash,
        ) == Some(
            CacheError::FramePeriodMismatch {
                expected: read.frame_period_micros,
                found: written.frame_period_micros,
            },
        ),
{
    law_trusted_header_matches_settings(
        written_header(frame_count, mgc_dims, bap_dims, payload_size, written, source_hash),
        read,
        source_hash,
    );
}

/// The first reason for which a payload of this shape and size is refused.
pub open spec fn shape_error(frame_count: usize, mgc_dims: usize, bap_dims: usize, payload_size: usize) -> Option<CacheError> {
    if frame_count > MAX_CACHE_FRAME_COUNT {
        Some(CacheError::FrameCountTooLarge { frame_count })
    } else if mgc_dims == 0 || mgc_dims > MAX_CACHE_MGC_DIMS {
        Some(CacheError::MgcDimsOutOfRange { mgc_dims })
    } else if bap_dims == 0 || bap_dims > MAX_CACHE_BAP_DIMS {
        Some(CacheError::BapDimsOutOfRange { bap_dims })
    } else if payload_size > MAX_CACHE_PAYLOAD_SIZE {
        Some(CacheError::PayloadTooLarge { payload_size })
    } else if payload_size > payload_len(frame_count as int, mgc_dims as int, bap_dims as int) {
        Some(
            CacheError::PayloadExceedsShape {
                payload_size,
                upper_bound: payload_len(frame_count as int, mgc_dims as int, bap_dims as int) as usize,
            },
        )
    } else {
        None
    }
}

/// The first reason for which features of this shape are not cached.
pub open spec fn write_shape_error(shape: FeatureShape) -> Option<CacheError> {
    if shape.mgc_rows != shape.frame_count {
        Some(CacheError::MgcRowsMismatch { rows: shape.mgc_rows, frames: shape.frame_count })
    } else if shape.bap_rows != shape.frame_count {
        Some(CacheError::BapRowsMismatch { rows: shape.bap_rows, frames: shape.frame_count })
    } else if shape.mgc_cols == 0 || shape.mgc_cols > MAX_CACHE_MGC_DIMS {
        Some(CacheError::MgcDimsOutOfRange { mgc_dims: shape.mgc_cols })
    } else if shape.bap_cols == 0 || shape.bap_cols > MAX_CACHE_BAP_DIMS {
        Some(CacheError::BapDimsOutOfRange { bap_dims: shape.bap_cols })
    } else if shape.frame_count > MAX_CACHE_FRAME_COUNT {
        Some(CacheError::FrameCountTooLarge { frame_count: shape.frame_count })
    } else {
        None
    }
}

/// Within the cache limits the payload length is far from overflowing.
pub proof fn lemma_payload_len_bounded(frame_count: int, mgc_dims: int, bap_dims: int)
    requires
        0 <= frame_count <= MAX_CACHE_FRAME_COUNT,
        0 <= mgc_dims <= MAX_CACHE_MGC_DIMS,
        0 <= bap_dims <= MAX_CACHE_BAP_DIMS,
    ensures
        0 <= frame_count * mgc_dims <= 120000 * 256,
        0 <= frame_count * bap_dims <= 120000 * 64,
        payload_len(frame_count, mgc_dims, bap_dims) <= 100000000,
{
    vstd::arithmetic::mul::lemma_mul_upper_bound(frame_count, 120000, mgc_dims, 256);
    vstd::arithmetic::mul::lemma_mul_upper_bound(frame_count, 120000, bap_dims, 64);
    vstd::arithmetic::mul::lemma_mul_nonnegative(frame_count, mgc_dims);
    vstd::arithmetic::mul::lemma_mul_nonnegative(frame_count, bap_dims);
}

/// The cache key a file written under these settings for this source holds.
pub fn expected_cache_key(settings: &CacheSettings, source_hash: u64) -> (r: u64)
    ensures
        r == cache_key_of(settings.sample_rate, settings.frame_period_micros, source_hash),
{
    compute_cache_key(settings.sample_rate, settings.frame_period_micros, source_hash)
}

/// Reads the header at the start of a cache file, which must be at least
/// [`CACHE_V5_HEADER_SIZE`] bytes long.
pub fn read_v5_header(file: &[u8]) -> (r: Result<CacheV5Header, CacheError>)
    ensures
        file@.len() < CACHE_V5_HEADER_SIZE ==> r == Err::<CacheV5Header, CacheError>(
            CacheError::TruncatedHeader,
        ),
        file@.len() >= CACHE_V5_HEADER_SIZE ==> r == Ok::<CacheV5Header, CacheError>(
            decode_header(file@),
        ),
{
    if file.len() < CACHE_V5_HEADER_SIZE {
        Err(CacheError::TruncatedHeader)
    } else {
        Ok(header_from_slice(file))
    }
}

/// Checks a cache header against the settings and the source file hash.
pub fn validate_header(header: &CacheV5Header, settings: &CacheSettings, source_hash: u64) -> (r: Result<(), CacheError>)
    ensures
        r matches Err(e) ==> header_error(*header, *settings, source_hash) == Some(e),
        r is Ok <==> header_error(*header, *settings, source_hash) is None,
{
    let m = header.magic;
    if !(m[0] == CACHE_V5_MAGIC[0] && m[1] == CACHE_V5_MAGIC[1] && m[2] == CACHE_V5_MAGIC[2] && m[3]
        == CACHE_V5_MAGIC[3]) {
        proof {
            assert(m@ != CACHE_V5_MAGIC@) by {
                if m@ == CACHE_V5_MAGIC@ {
                    assert(m@[0] == CACHE_V5_MAGIC@[0]);
                    assert(m@[1] == CACHE_V5_MAGIC@[1]);
                    assert(m@[2] == CACHE_V5_MAGIC@[2]);
                    assert(m@[3] == CACHE_V5_MAGIC@[3]);
                }
            }
        }
        return Err(CacheError::BadMagic);
    }
    assert(m@ =~= CACHE_V5_MAGIC@);
    if header.format_version != CACHE_V5_FORMAT_VERSION {
        return Err(CacheError::FormatVersionMismatch { found: header.format_version });
    }
    if !settings.ignore_cache_hash_verification && header.cache_key != expected_cache_key(
        settings,
        source_hash,
    ) {
        return Err(CacheError::CacheKeyMismatch);
    }
    if header.sample_rate != settings.sample_rate {
        return Err(
            CacheError::SampleRateMismatch {
                expected: settings.sample_rate,
                found: header.sample_rate,
            },
        );
    }
    if header.frame_period_micros != settings.frame_period_micros {
        return Err(
            CacheError::FramePeriodMismatch {
                expected: settings.frame_period_micros,
                found: header.frame_period_micros,
            },
        );
    }
    Ok(())
}

/// Checks the shape a cache header declares against the cache limits.
pub fn validate_payload_shape(frame_count: usize, mgc_dims: usize, bap_dims: usize, payload_size: usize) -> (r: Result<(), CacheError>)
    ensures
        r matches Err(e) ==> shape_error(frame_count, mgc_dims, bap_dims, payload_size) == Some(e),
        r is Ok <==> shape_error(frame_count, mgc_dims, bap_dims, payload_size) is None,
{
    if frame_count > MAX_CACHE_FRAME_COUNT {
        return Err(CacheError::FrameCountTooLarge { frame_count });
    }
    if mgc_dims == 0 || mgc_dims > MAX_CACHE_MGC_DIMS {
        return Err(CacheError::MgcDimsOutOfRange { mgc_dims });
    }
    if bap_dims == 0 || bap_dims > MAX_CACHE_BAP_DIMS {
        return Err(CacheError::BapDimsOutOfRange { bap_dims });
    }
    if payload_size > MAX_CACHE_PAYLOAD_SIZE {
        return Err(CacheError::PayloadTooLarge { payload_size });
    }
    proof {
        lemma_payload_len_bounded(frame_count as int, mgc_dims as int, bap_dims as int);
    }
    let upper_bound = v5_payload_upper_bound(frame_count, mgc_dims, bap_dims);
    if payload_size > upper_bound {
        return Err(CacheError::PayloadExceedsShape { payload_size, upper_bound });
    }
    Ok(())
}

/// Checks that features of this shape may be written to a cache file.
pub fn validate_features_shape_for_write(shape: &FeatureShape) -> (r: Result<(), CacheError>)
    ensures
        r matches Err(e) ==> write_shape_error(*shape) == Some(e),
        r is Ok <==> write_shape_error(*shape) is None,
{
    if shape.mgc_rows != shape.frame_count {
        return Err(CacheError::MgcRowsMismatch { rows: shape.mgc_rows, frames: shape.frame_count });
    }
    if shape.bap_rows != shape.frame_count {
        return Err(CacheError::BapRowsMismatch { rows: shape.bap_rows, frames: shape.frame_count });
    }
    if shape.mgc_cols == 0 || shape.mgc_cols > MAX_CACHE_MGC_DIMS {
        return Err(CacheError::MgcDimsOutOfRange { mgc_dims: shape.mgc_cols });
    }
    if shape.bap_cols == 0 || shape.bap_cols > MAX_CACHE_BAP_DIMS {
        return Err(CacheError::BapDimsOutOfRange { bap_dims: shape.bap_cols });
    }
    if shape.frame_count > MAX_CACHE_FRAME_COUNT {
        return Err(CacheError::FrameCountTooLarge { frame_count: shape.frame_count });
    }
    Ok(())
}

/// The header written in front of a payload of this shape and length.
pub open spec fn written_header(
    frame_count: usize,
    mgc_dims: usize,
    bap_dims: usize,
    payload_size: usize,
    s: CacheSettings,
    source_hash: u64,
) -> CacheV5Header {
    CacheV5Header {
        magic: CACHE_V5_MAGIC,
        format_version: CACHE_V5_FORMAT_VERSION,
        cache_key: cache_key_of(s.sample_rate, s.frame_period_micros, source_hash),
        sample_rate: s.sample_rate,
        frame_period_micros: s.frame_period_micros,
        frame_count: frame_count as u32,
        mgc_dims: mgc_dims as u16,
        bap_dims: bap_dims as u16,
        payload_size: payload_size as u32,
        _reserved: 0,
    }
}

/// `parts` is what quantizing features of shape `shape` gives: one F0 delta
/// per frame, one parameter pair per column and one value per matrix cell.
pub open spec fn parts_match_shape(parts: PayloadParts, shape: FeatureShape) -> bool {
    &&& parts.f0_q@.len() == shape.frame_count
    &&& parts.mgc.params@.len() == shape.mgc_cols
    &&& parts.mgc.q@.len() == shape.mgc_rows * shape.mgc_cols
    &&& parts.bap.params@.len() == shape.bap_cols
    &&& parts.bap.q@.len() == shape.bap_rows * shape.bap_cols
}

/// Builds the bytes of the cache file for quantized features of shape `shape`:
/// the header, then the payload compressed at `compression_level`.
pub fn write_cache_bytes(
    shape: &FeatureShape,
    parts: &PayloadParts,
    settings: &CacheSettings,
    source_hash: u64,
    compression_level: i32,
) -> (r: Result<Vec<u8>, CacheError>)
    requires
        parts_match_shape(*parts, *shape),
    ensures
        ({
            let n = payload_len(
                shape.frame_count as int,
                shape.mgc_cols as int,
                shape.bap_cols as int,
            ) as usize;
            match r {
                Ok(bytes) => {
                    &&& write_shape_error(*shape) is None
                    &&& shape_error(shape.frame_count, shape.mgc_cols, shape.bap_cols, n) is None
                    &&& zstd_compressed(payload_bytes(*parts), compression_level) is Some
                    &&& forall|limit: u64|
                        #[trigger] zstd_decompressed(bytes@.skip(CACHE_V5_HEADER_SIZE as int), limit)
                            == Some(prefix_upto(payload_bytes(*parts), limit))
                    &&& bytes@ == header_bytes(
                        written_header(
                            shape.frame_count,
                            shape.mgc_cols,
                            shape.bap_cols,
                            n,
                            *settings,
                            source_hash,
                        ),
                    ) + zstd_compressed(payload_bytes(*parts), compression_level)->0
                },
                Err(e) => {
                    ||| write_shape_error(*shape) == Some(e)
                    ||| (write_shape_error(*shape) is None && shape_error(
                        shape.frame_count,
                        shape.mgc_cols,
                        shape.bap_cols,
                        n,
                    ) == Some(e))
                    ||| (write_shape_error(*shape) is None && shape_error(
                        shape.frame_count,
                        shape.mgc_cols,
                        shape.bap_cols,
                        n,
                    ) is None && zstd_compressed(payload_bytes(*parts), compression_level) is None
                        && e == CacheError::Compression)
                },
            }
        }),
{
    validate_features_shape_for_write(shape)?;
    let frame_count = shape.frame_count;
    let mgc_dims = shape.mgc_cols;
    let bap_dims = shape.bap_cols;
    proof {
        lemma_payload_len_bounded(frame_count as int, mgc_dims as int, bap_dims as int);
        crate::payload::lemma_payload_bytes_len(*parts);
    }
    let payload = serialize_v5_payload(parts);
    validate_payload_shape(frame_count, mgc_dims, bap_dims, payload.len())?;
    let cache_key = expected_cache_key(settings, source_hash);
    let header = CacheV5Header {
        magic: CACHE_V5_MAGIC,
        format_version: CACHE_V5_FORMAT_VERSION,
        cache_key,
        sample_rate: settings.sample_rate,
        frame_period_micros: settings.frame_period_micros,
        frame_count: frame_count as u32,
        mgc_dims: mgc_dims as u16,
        bap_dims: bap_dims as u16,
        payload_size: payload.len() as u32,
        _reserved: 0,
    };
    let compressed = match zstd_encode(payload.as_slice(), compression_level) {
        Ok(c) => c,
        Err(_) => {
            return Err(CacheError::Compression);
        },
    };
    let header_arr = header.to_bytes();
    let mut out: Vec<u8> = Vec::new();
    let mut i: usize = 0;
    while i < CACHE_V5_HEADER_SIZE
        invariant
            i <= CACHE_V5_HEADER_SIZE,
            out@ == header_arr@.take(i as int),
        decreases CACHE_V5_HEADER_SIZE - i,
    {
        out.push(header_arr[i]);
        i = i + 1;
        proof {
            assert(out@ =~= header_arr@.take(i as int));
        }
    }
    let mut j: usize = 0;
    while j < compressed.len()
        invariant
            j <= compressed@.len(),
            out@ == header_arr@ + compressed@.take(j as int),
        decreases compressed.len() - j,
    {
        out.push(compressed[j]);
        j = j + 1;
        proof {
            assert(out@ =~= header_arr@ + compressed@.take(j as int));
        }
    }
    assert(compressed@.take(compressed@.len() as int) =~= compressed@);
    assert(header_arr@.take(40) =~= header_arr@);
    assert(out@.skip(CACHE_V5_HEADER_SIZE as int) =~= compressed@);
    Ok(out)
}

/// Checks the decompressed payload against the header it was stored under
/// and decodes it.
pub fn decode_cache_payload(header: &CacheV5Header, payload: &[u8]) -> (r: Result<PayloadParts, CacheError>)
    requires
        header.frame_count <= MAX_CACHE_FRAME_COUNT,
        header.mgc_dims <= MAX_CACHE_MGC_DIMS,
        header.bap_dims <= MAX_CACHE_BAP_DIMS,
    ensures
        ({
            let fc = header.frame_count as int;
            let md = header.mgc_dims as int;
            let bd = header.bap_dims as int;
            match r {
                Ok(p) => {
                    &&& payload@.len() == header.payload_size
                    &&& payload_parse_error(payload@, fc, md, bd) is None
                    &&& payload_has_shape(p, fc, md, bd)
                    &&& payload_bytes(p) == payload@.take(payload_len(fc, md, bd))
                },
                Err(e) => if payload@.len() != header.payload_size {
                    e == CacheError::PayloadSizeMismatch {
                        declared: header.payload_size as usize,
                        actual: payload@.len() as usize,
                    }
                } else {
                    exists|pe: PayloadError|
                        payload_parse_error(payload@, fc, md, bd) == Some(pe) && e
                            == CacheError::Payload(pe)
                },
            }
        }),
{
    let payload_size = header.payload_size as usize;
    if payload.len() != payload_size {
        return Err(CacheError::PayloadSizeMismatch { declared: payload_size, actual: payload.len() });
    }
    let frame_count = header.frame_count as usize;
    let mgc_dims = header.mgc_dims as usize;
    let bap_dims = header.bap_dims as usize;
    proof {
        lemma_payload_len_bounded(frame_count as int, mgc_dims as int, bap_dims as int);
    }
    match parse_v5_payload(payload, frame_count, mgc_dims, bap_dims) {
        Ok(p) => Ok(p),
        Err(pe) => Err(CacheError::Payload(pe)),
    }
}

/// Whether a file that starts with `prefix` has a header that is trusted
/// under these settings for this source.
pub fn header_compatible(prefix: &[u8], settings: &CacheSettings, source_hash: u64) -> (r: bool)
    ensures
        r <==> prefix@.len() >= CACHE_V5_HEADER_SIZE && header_error(
            decode_header(prefix@),
            *settings,
            source_hash,
        ) is None,
{
    match read_v5_header(prefix) {
        Ok(header) => validate_header(&header, settings, source_hash).is_ok(),
        Err(_) => false,
    }
}

/// How reading the cache file `file` ends, short of decompressing and
/// decoding the payload: `Some` with the error it stops with, or `None` when
/// the header is trusted and declares an acceptable shape.
pub open spec fn read_header_error(file: Seq<u8>, s: CacheSettings, source_hash: u64) -> Option<CacheError> {
    let h = decode_header(file);
    if file.len() < CACHE_V5_HEADER_SIZE {
        Some(CacheError::TruncatedHeader)
    } else if header_error(h, s, source_hash) is Some {
        header_error(h, s, source_hash)
    } else {
        shape_error(
            h.frame_count as usize,
            h.mgc_dims as usize,
            h.bap_dims as usize,
            h.payload_size as usize,
        )
    }
}

/// Reads a whole cache file: checks its header against the settings and the
/// source hash, decompresses at most one byte more than the declared payload
/// size, checks the size and decodes the payload.
pub fn read_cache_bytes(file: &[u8], settings: &CacheSettings, source_hash: u64) -> (r: Result<PayloadParts, CacheError>)
    ensures
        ({
            let h = decode_header(file@);
            let fc = h.frame_count as int;
            let md = h.mgc_dims as int;
            let bd = h.bap_dims as int;
            let body = file@.skip(CACHE_V5_HEADER_SIZE as int);
            let dec = zstd_decompressed(body, (h.payload_size + 1) as u64);
            match r {
                Ok(p) => {
                    &&& read_header_error(file@, *settings, source_hash) is None
                    &&& dec is Some
                    &&& dec->0.len() == h.payload_size
                    &&& payload_parse_error(dec->0, fc, md, bd) is None
                    &&& payload_has_shape(p, fc, md, bd)
                    &&& payload_bytes(p) == dec->0.take(payload_len(fc, md, bd))
                },
                Err(e) => {
                    ||| read_header_error(file@, *settings, source_hash) == Some(e)
                    ||| (read_header_error(file@, *settings, source_hash) is None && dec is None
                        && e == CacheError::Decompression)
                    ||| (read_header_error(file@, *settings, source_hash) is None && dec is Some
                        && dec->0.len() != h.payload_size && e == CacheError::PayloadSizeMismatch {
                        declared: h.payload_size as usize,
                        actual: dec->0.len() as usize,
                    })
                    ||| (read_header_error(file@, *settings, source_hash) is None && dec is Some
                        && dec->0.len() == h.payload_size && exists|pe: PayloadError|
                        payload_parse_error(dec->0, fc, md, bd) == Some(pe) && e
                            == CacheError::Payload(pe))
                },
            }
        }),
{
    let header = read_v5_header(file)?;
    validate_header(&header, settings, source_hash)?;
    let frame_count = header.frame_count as usize;
    let mgc_dims = header.mgc_dims as usize;
    let bap_dims = header.bap_dims as usize;
    let payload_size = header.payload_size as usize;
    validate_payload_shape(frame_count, mgc_dims, bap_dims, payload_size)?;
    let read_limit = (header.payload_size as u64) + 1;
    let body = vstd::slice::slice_subrange(file, CACHE_V5_HEADER_SIZE, file.len());
    assert(body@ =~= file@.skip(CACHE_V5_HEADER_SIZE as int));
    let payload = match zstd_decode_limited(body, read_limit) {
        Ok(v) => v,
        Err(_) => {
            return Err(CacheError::Decompression);
        },
    };
    decode_cache_payload(&header, payload.as_slice())
}

/// `p` and `q` hold the same values.
pub open spec fn same_payload(p: PayloadParts, q: PayloadParts) -> bool {
    &&& p.base_f0_bits == q.base_f0_bits
    &&& p.f0_base_bits == q.f0_base_bits
    &&& p.f0_scale_bits == q.f0_scale_bits
    &&& p.f0_q@ == q.f0_q@
    &&& p.mgc.mode == q.mgc.mode
    &&& p.mgc.params@ == q.mgc.params@
    &&& p.mgc.q@ == q.mgc.q@
    &&& p.bap.mode == q.bap.mode
    &&& p.bap.params@ == q.bap.params@
    &&& p.bap.q@ == q.bap.q@
}

/// Reading back a cache file that `write_cache_bytes` produced, with the same
/// settings and source hash, succeeds and yields the payload that was written:
/// the header is trusted, the declared shape is accepted, decompression gives
/// exactly the serialized payload, and the only payload of that shape with
/// those bytes is the one that was written.
pub proof fn law_cache_read_after_write(
    shape: FeatureShape,
    parts: PayloadParts,
    settings: CacheSettings,
    source_hash: u64,
    compression_level: i32,
    file: Seq<u8>,
)
    requires
        parts_match_shape(parts, shape),
        write_shape_error(shape) is None,
        shape_error(
            shape.frame_count,
            shape.mgc_cols,
            shape.bap_cols,
            payload_len(shape.frame_count as int, shape.mgc_cols as int, shape.bap_cols as int)
                as usize,
        ) is None,
        file.len() >= CACHE_V5_HEADER_SIZE,
        forall|limit: u64|
            #[trigger] zstd_decompressed(file.skip(CACHE_V5_HEADER_SIZE as int), limit) == Some(
                prefix_upto(payload_bytes(parts), limit),
            ),
        file.take(CACHE_V5_HEADER_SIZE as int) == header_bytes(
            written_header(
                shape.frame_count,
                shape.mgc_cols,
                shape.bap_cols,
                payload_len(shape.frame_count as int, shape.mgc_cols as int, shape.bap_cols as int)
                    as usize,
                settings,
                source_hash,
            ),
        ),
    ensures
        ({
            let h = decode_header(file);
            let fc = h.frame_count as int;
            let md = h.mgc_dims as int;
            let bd = h.bap_dims as int;
            let dec = zstd_decompressed(
                file.skip(CACHE_V5_HEADER_SIZE as int),
                (h.payload_size + 1) as u64,
            );
            &&& read_header_error(file, settings, source_hash) is None
            &&& dec == Some(payload_bytes(parts))
            &&& payload_bytes(parts).len() == h.payload_size
            &&& payload_parse_error(payload_bytes(parts), fc, md, bd) is None
            &&& forall|p: PayloadParts|
                payload_has_shape(p, fc, md, bd) && payload_bytes(p) == payload_bytes(parts).take(
                    payload_len(fc, md, bd),
                ) ==> #[trigger] same_payload(p, parts)
        }),
{
    let fc = shape.frame_count;
    let md = shape.mgc_cols;
    let bd = shape.bap_cols;
    lemma_payload_len_bounded(fc as int, md as int, bd as int);
    let n = payload_len(fc as int, md as int, bd as int);
    let w = written_header(fc, md, bd, n as usize, settings, source_hash);
    lemma_header_bytes_len(w);
    lemma_decode_header(file);
    lemma_header_bytes_injective(decode_header(file), w);
    let h = decode_header(file);
    assert(h == w);
    assert(h.magic@ == CACHE_V5_MAGIC@);
    assert(payload_has_shape(parts, fc as int, md as int, bd as int));
    lemma_payload_bytes_len(parts);
    let x = payload_bytes(parts);
    assert(x.len() == n);
    assert(h.payload_size == n);
    let dec = zstd_decompressed(file.skip(CACHE_V5_HEADER_SIZE as int), (h.payload_size + 1) as u64);
    assert(dec == Some(prefix_upto(x, (h.payload_size + 1) as u64)));
    assert(prefix_upto(x, (h.payload_size + 1) as u64) == x);
    assert(x + Seq::<u8>::empty() =~= x);
    assert(x.take(n) =~= x);
    crate::payload::law_payload_roundtrip(parts, Seq::empty(), fc as int, md as int, bd as int, parts);
    assert forall|p: PayloadParts|
        payload_has_shape(p, fc as int, md as int, bd as int) && payload_bytes(p) == x.take(
            n,
        ) implies #[trigger] same_payload(p, parts) by {
        assert(x.take(n) =~= x);
        lemma_payload_bytes_injective(p, parts, fc as int, md as int, bd as int);
    }
}

} // verus!

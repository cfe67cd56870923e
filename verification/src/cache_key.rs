//! The key that ties a cache file to the analysis settings and the source audio.
use vstd::prelude::*;

use std::collections::hash_map::DefaultHasher;
use std::hash::{Hash, Hasher};

use crate::header::CACHE_V5_FORMAT_VERSION;

verus! {

/// Version of this library, hashed into every cache key so that a new release
/// does not trust caches written by an older one.
pub const PKG_VERSION: &'static str = "0.1.0";

/// Identifies the analysis backend and cache layout in the cache key.
pub const CACHE_BACKEND_TAG: &'static str = "world-native-f64-cache-f32-native";

/// What `std`'s `DefaultHasher` yields after hashing these values in order.
pub uninterp spec fn cache_key_digest(
    version: Seq<char>,
    format_version: u32,
    backend_tag: Seq<char>,
    sample_rate: u32,
    frame_period_micros: u32,
    source_hash: u64,
) -> u64;

/// Feeds the six values, in order, to a fresh `DefaultHasher` (whose keys are
/// fixed, so the result depends on the values alone) and returns `finish()`.
#[verifier::external_body]
fn hash_cache_key_parts(
    version: &str,
    format_version: u32,
    backend_tag: &str,
    sample_rate: u32,
    frame_period_micros: u32,
    source_hash: u64,
) -> (r: u64)
    ensures
        r == cache_key_digest(
            version@,
            format_version,
            backend_tag@,
            sample_rate,
            frame_period_micros,
            source_hash,
        ),
{
    let mut h = DefaultHasher::new();
    version.hash(&mut h);
    format_version.hash(&mut h);
    backend_tag.hash(&mut h);
    sample_rate.hash(&mut h);
    frame_period_micros.hash(&mut h);
    source_hash.hash(&mut h);
    h.finish()
}

/// The cache key for this backend, analysis settings and source file hash.
pub open spec fn backend_cache_key(backend_tag: Seq<char>, sample_rate: u32, frame_period_micros: u32, source_hash: u64) -> u64 {
    cache_key_digest(
        PKG_VERSION@,
        CACHE_V5_FORMAT_VERSION,
        backend_tag,
        sample_rate,
        frame_period_micros,
        source_hash,
    )
}

/// The cache key written into, and expected from, this library's cache files.
pub open spec fn cache_key_of(sample_rate: u32, frame_period_micros: u32, source_hash: u64) -> u64 {
    backend_cache_key(CACHE_BACKEND_TAG@, sample_rate, frame_period_micros, source_hash)
}

fn compute_cache_key_for_backend(
    backend_tag: &str,
    sample_rate: u32,
    frame_period_micros: u32,
    source_hash: u64,
) -> (r: u64)
    ensures
        r == backend_cache_key(backend_tag@, sample_rate, frame_period_micros, source_hash),
{
    hash_cache_key_parts(
        PKG_VERSION,
        CACHE_V5_FORMAT_VERSION,
        backend_tag,
        sample_rate,
        frame_period_micros,
        source_hash,
    )
}

/// Computes the cache key for a source file analysed at `sample_rate` with
/// frames `frame_period_micros` apart.
pub fn compute_cache_key(sample_rate: u32, frame_period_micros: u32, source_hash: u64) -> (r: u64)
    ensures
        r == cache_key_of(sample_rate, frame_period_micros, source_hash),
{
    compute_cache_key_for_backend(CACHE_BACKEND_TAG, sample_rate, frame_period_micros, source_hash)
}

} // verus!

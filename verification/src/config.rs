//! Settings of the engine and their defaults.
use vstd::prelude::*;

use crate::cache_file::CacheSettings;
use crate::memory_cache::configured_capacity_bytes;

verus! {

/// Rendering quality profile.
#[derive(Clone, Copy, Debug, PartialEq, Eq, Structural)]
pub enum QualityPreset {
    Classic,
    Balanced,
    Clear,
    BreathySafe,
}

impl Default for QualityPreset {
    fn default() -> (r: Self)
        ensures
            r == QualityPreset::Balanced,
    {
        QualityPreset::Balanced
    }
}

/// The integer, text and flag settings of the engine. The frame period and
/// the output compressor levels are fractional and are kept beside this.
#[derive(Clone, Debug)]
pub struct OrganumConfig {
    pub feature_extension: String,
    pub sample_rate: u32,
    pub zstd_compression_level: i32,
    pub gpu_warp_enabled: bool,
    pub gpu_warp_min_frames: usize,
    pub gpu_ap_min_frames: usize,
    pub output_dither: bool,
    pub memory_cache_enabled: bool,
    pub memory_cache_max_mb: usize,
    pub ignore_cache_hash_verification: bool,
    pub quality_preset: QualityPreset,
}

/// Default extension of feature cache files.
pub fn default_feature_ext() -> (r: String)
    ensures
        r@ == "ogc"@,
{
    String::from_str("ogc")
}

/// Default analysis sample rate.
pub fn default_sample_rate() -> (r: u32)
    ensures
        r == 44100,
{
    44100
}

/// Default zstd compression level of cache files.
pub fn default_zstd_level() -> (r: i32)
    ensures
        r == 3,
{
    3
}

/// GPU spectral warping is off by default.
pub fn default_gpu_warp_enabled() -> (r: bool)
    ensures
        r == false,
{
    false
}

/// By default no render is long enough to warp on the GPU.
pub fn default_gpu_warp_min_frames() -> (r: usize)
    ensures
        r == usize::MAX,
{
    usize::MAX
}

/// By default no render is long enough to apply aperiodicity on the GPU.
pub fn default_gpu_ap_min_frames() -> (r: usize)
    ensures
        r == usize::MAX,
{
    usize::MAX
}

/// Output is dithered by default.
pub fn default_output_dither() -> (r: bool)
    ensures
        r == true,
{
    true
}

/// The in-memory feature cache is on by default.
pub fn default_memory_cache_enabled() -> (r: bool)
    ensures
        r == true,
{
    true
}

/// Default limit of the in-memory feature cache, in MiB.
pub fn default_memory_cache_max_mb() -> (r: usize)
    ensures
        r == 256,
{
    256
}

/// By default caches are accepted whatever their key says about the source.
pub fn default_ignore_cache_hash_verification() -> (r: bool)
    ensures
        r == true,
{
    true
}

impl Default for OrganumConfig {
    fn default() -> (r: Self)
        ensures
            r.feature_extension@ == "ogc"@,
            r.sample_rate == 44100,
            r.zstd_compression_level == 3,
            r.gpu_warp_enabled == false,
            r.gpu_warp_min_frames == usize::MAX,
            r.gpu_ap_min_frames == usize::MAX,
            r.output_dither == true,
            r.memory_cache_enabled == true,
            r.memory_cache_max_mb == 256,
            r.ignore_cache_hash_verification == true,
            r.quality_preset == QualityPreset::Balanced,
    {
        OrganumConfig {
            feature_extension: default_feature_ext(),
            sample_rate: default_sample_rate(),
            zstd_compression_level: default_zstd_level(),
            gpu_warp_enabled: default_gpu_warp_enabled(),
            gpu_warp_min_frames: default_gpu_warp_min_frames(),
            gpu_ap_min_frames: default_gpu_ap_min_frames(),
            output_dither: default_output_dither(),
            memory_cache_enabled: default_memory_cache_enabled(),
            memory_cache_max_mb: default_memory_cache_max_mb(),
            ignore_cache_hash_verification: default_ignore_cache_hash_verification(),
            quality_preset: QualityPreset::Balanced,
        }
    }
}

impl OrganumConfig {
    /// The settings a cache file has to match, for a frame period of
    /// `frame_period_micros` microseconds.
    pub fn cache_settings(&self, frame_period_micros: u32) -> (r: CacheSettings)
        ensures
            r.sample_rate == self.sample_rate,
            r.frame_period_micros == frame_period_micros,
            r.ignore_cache_hash_verification == self.ignore_cache_hash_verification,
    {
        CacheSettings {
            sample_rate: self.sample_rate,
            frame_period_micros,
            ignore_cache_hash_verification: self.ignore_cache_hash_verification,
        }
    }

    /// Capacity of the in-memory feature cache these settings ask for.
    pub fn memory_cache_capacity(&self) -> (r: usize)
        ensures
            r == if self.memory_cache_max_mb * 1048576 > usize::MAX {
                usize::MAX as int
            } else if self.memory_cache_max_mb == 0 {
                1
            } else {
                self.memory_cache_max_mb * 1048576
            },
    {
        configured_capacity_bytes(self.memory_cache_max_mb)
    }
}

} // verus!

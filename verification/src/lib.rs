//! Verified core of the Organum UTAU resampler engine.
use vstd::prelude::*;

pub mod bytes;
pub mod cache_file;
pub mod cache_key;
pub mod cli;
pub mod compress;
pub mod config;
pub mod device;
pub mod flags;
pub mod grid;
pub mod header;
pub mod lookup;
pub mod matrix;
pub mod memory_cache;
pub mod payload;
pub mod route;
pub mod text;
pub mod timing;
pub mod utau;
pub mod world;

verus! {
} // verus!

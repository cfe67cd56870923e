//! Choices of the compute route for the spectral stages: which GPU buffer
//! bucket a batch uses, how it is chunked, how many batches are in flight,
//! and whether the CPU aperiodicity path uses SIMD. The tuning values come
//! from environment variables, which the caller reads and hands in.
use vstd::prelude::*;

use crate::text::{str_chars, trim_chars, trimmed};

verus! {

/// Batches of at most this many frames use the small GPU buffer bucket.
pub const SMALL_BUCKET_MAX_FRAMES: usize = 4096;

/// Which of the two reusable GPU buffer sets a batch uses.
#[derive(Clone, Copy, PartialEq, Eq, Debug, Structural)]
pub enum FrameCapacityClass {
    Small,
    Large,
}

/// The buffer bucket for a batch of `frames` frames.
pub fn classify_capacity(frames: usize) -> (r: FrameCapacityClass)
    ensures
        r == (if frames <= SMALL_BUCKET_MAX_FRAMES {
            FrameCapacityClass::Small
        } else {
            FrameCapacityClass::Large
        }),
{
    if frames <= SMALL_BUCKET_MAX_FRAMES {
        FrameCapacityClass::Small
    } else {
        FrameCapacityClass::Large
    }
}

/// The larger of `x` and 1.
pub open spec fn at_least_one(x: usize) -> usize {
    if x >= 1 {
        x
    } else {
        1
    }
}

/// Frames per GPU chunk for a batch of `frame_count` frames: the configured
/// number when there is one (the whole batch otherwise), at least 1 and at
/// most the batch (counted as at least 1).
pub fn chunk_frames(frame_count: usize, configured: Option<usize>) -> (r: usize)
    ensures
        r == ({
            let whole = at_least_one(frame_count);
            let asked = match configured {
                Some(c) => at_least_one(c),
                None => whole,
            };
            if asked <= whole {
                asked
            } else {
                whole
            }
        }),
        1 <= r <= at_least_one(frame_count),
{
    let whole = if frame_count >= 1 {
        frame_count
    } else {
        1
    };
    let asked = match configured {
        Some(c) => if c >= 1 {
            c
        } else {
            1
        },
        None => whole,
    };
    if asked <= whole {
        asked
    } else {
        whole
    }
}

/// Number of GPU batches kept in flight: the configured number (2 when there
/// is none), clamped to `1..=8`.
pub fn inflight_depth(configured: Option<usize>) -> (r: usize)
    ensures
        r == match configured {
            Some(c) => if c < 1 {
                1
            } else if c > 8 {
                8
            } else {
                c
            },
            None => 2,
        },
        1 <= r <= 8,
{
    match configured {
        Some(c) => if c < 1 {
            1
        } else if c > 8 {
            8
        } else {
            c
        },
        None => 2,
    }
}

/// How the SIMD route of the CPU aperiodicity stage was asked for.
#[derive(Clone, Copy, PartialEq, Eq, Debug, Structural)]
pub enum SimdMode {
    Auto,
    On,
    Off,
}

/// `c` with ASCII capitals lowered.
pub open spec fn lower_ascii(c: char) -> char {
    if 'A' <= c && c <= 'Z' {
        ((c as u32) + 32) as char
    } else {
        c
    }
}

/// The mode a setting's text asks for: after trimming and lowering ASCII
/// letters, `on`/`1`/`true` ask for SIMD, `off`/`0`/`false` forbid it, and
/// anything else, or no setting, leaves the choice to the CPU.
pub open spec fn simd_mode_of(setting: Option<Seq<char>>) -> SimdMode {
    match setting {
        None => SimdMode::Auto,
        Some(text) => {
            let s = trimmed(text).map_values(|c: char| lower_ascii(c));
            if s == "on"@ || s == "1"@ || s == "true"@ {
                SimdMode::On
            } else if s == "off"@ || s == "0"@ || s == "false"@ {
                SimdMode::Off
            } else {
                SimdMode::Auto
            }
        },
    }
}

fn chars_are(a: &Vec<char>, lit: &str) -> (r: bool)
    ensures
        r <==> a@ == lit@,
{
    let b = str_chars(lit);
    if a.len() != b.len() {
        return false;
    }
    let mut i: usize = 0;
    while i < a.len()
        invariant
            a@.len() == b@.len(),
            b@ == lit@,
            i <= a@.len(),
            forall|k: int| 0 <= k < i ==> a@[k] == b@[k],
        decreases a.len() - i,
    {
        if a[i] != b[i] {
            return false;
        }
        i = i + 1;
    }
    assert(a@ =~= b@);
    true
}

/// Reads the SIMD setting, given the text of the setting if it is set.
pub fn simd_mode_from(setting: Option<&str>) -> (r: SimdMode)
    ensures
        r == simd_mode_of(
            match setting {
                Some(s) => Some(s@),
                None => None,
            },
        ),
{
    match setting {
        None => SimdMode::Auto,
        Some(text) => {
            let t = trim_chars(&str_chars(text));
            let mut low: Vec<char> = Vec::new();
            let mut i: usize = 0;
            while i < t.len()
                invariant
                    i <= t@.len(),
                    low@ == t@.take(i as int).map_values(|c: char| lower_ascii(c)),
                decreases t.len() - i,
            {
                let c = t[i];
                let l = if 'A' <= c && c <= 'Z' {
                    ((c as u32) + 32) as u8 as char
                } else {
                    c
                };
                low.push(l);
                i = i + 1;
                proof {
                    assert(low@ =~= t@.take(i as int).map_values(|c: char| lower_ascii(c)));
                }
            }
            assert(t@.take(t@.len() as int) =~= t@);
            proof {
                reveal_strlit("on");
                reveal_strlit("1");
                reveal_strlit("true");
                reveal_strlit("off");
                reveal_strlit("0");
                reveal_strlit("false");
            }
            if chars_are(&low, "on") || chars_are(&low, "1") || chars_are(&low, "true") {
                SimdMode::On
            } else if chars_are(&low, "off") || chars_are(&low, "0") || chars_are(&low, "false") {
                SimdMode::Off
            } else {
                SimdMode::Auto
            }
        },
    }
}

/// Whether the CPU aperiodicity stage takes its SIMD route: never when it is
/// switched off, otherwise exactly when the CPU supports it.
pub fn simd_route_enabled(mode: SimdMode, cpu_supported: bool) -> (r: bool)
    ensures
        r == (mode != SimdMode::Off && cpu_supported),
{
    match mode {
        SimdMode::Off => false,
        SimdMode::On => cpu_supported,
        SimdMode::Auto => cpu_supported,
    }
}

} // verus!

//! Voiced/unvoiced decisions on the render timeline.
//!
//! A V/UV track holds one byte per render frame, non-zero for voiced frames.
use vstd::prelude::*;

use crate::config::QualityPreset;

verus! {

/// Start of the run of equal values in `s` that contains `k`.
pub open spec fn run_start(s: Seq<u8>, k: int) -> int
    decreases k,
{
    if k > 0 && s[k - 1] == s[k] {
        run_start(s, k - 1)
    } else {
        k
    }
}

/// One past the end of the run of equal values in `s` that contains `k`.
pub open spec fn run_end(s: Seq<u8>, k: int) -> int
    decreases s.len() - k,
{
    if k + 1 < s.len() && s[k + 1] == s[k] {
        run_end(s, k + 1)
    } else {
        k + 1
    }
}

/// Shortest run kept by a preset, or `None` when runs are left alone.
pub open spec fn min_run_len(preset: QualityPreset, render_length: int) -> Option<int> {
    let base: int = match preset {
        QualityPreset::Classic => 0,
        QualityPreset::Balanced => 2,
        QualityPreset::Clear => 3,
        QualityPreset::BreathySafe => 3,
    };
    if base == 0 {
        None
    } else if render_length < 24 {
        Some(if base + 1 < 4 {
            base + 1
        } else {
            4
        })
    } else {
        Some(base)
    }
}

/// Frame `k` after stabilizing: a run shorter than `m` that has neighbours
/// on both sides, equal to each other and different from it, takes their
/// value; every other frame keeps its own.
pub open spec fn stabilized_at(s: Seq<u8>, k: int, m: int) -> u8 {
    let st = run_start(s, k);
    let en = run_end(s, k);
    if en - st < m && st > 0 && en < s.len() && s[st - 1] == s[en] && s[st - 1] != s[k] {
        s[st - 1]
    } else {
        s[k]
    }
}

/// The V/UV track `s` after run stabilization for this preset and length.
pub open spec fn stabilized(s: Seq<u8>, render_length: int, preset: QualityPreset) -> Seq<u8> {
    match min_run_len(preset, render_length) {
        None => s,
        Some(m) => if render_length < 3 || s.len() < 3 {
            s
        } else {
            Seq::new(s.len(), |k: int| stabilized_at(s, k, m))
        },
    }
}

pub proof fn lemma_run_bounds(s: Seq<u8>, k: int)
    requires
        0 <= k < s.len(),
    ensures
        0 <= run_start(s, k) <= k < run_end(s, k) <= s.len(),
    decreases s.len() - k,
{
    lemma_run_start_bounds(s, k);
    if k + 1 < s.len() && s[k + 1] == s[k] {
        lemma_run_bounds(s, k + 1);
    }
}

proof fn lemma_run_start_bounds(s: Seq<u8>, k: int)
    requires
        0 <= k < s.len(),
    ensures
        0 <= run_start(s, k) <= k,
    decreases k,
{
    if k > 0 && s[k - 1] == s[k] {
        lemma_run_start_bounds(s, k - 1);
    }
}

/// Inside a maximal run `[start, end)`, every frame has that run as its run.
proof fn lemma_in_run(s: Seq<u8>, start: int, end: int, k: int)
    requires
        0 <= start <= k < end <= s.len(),
        start == 0 || s[start - 1] != s[start],
        end == s.len() || s[end] != s[start],
        forall|i: int| start <= i < end ==> s[i] == s[start],
    ensures
        run_start(s, k) == start,
        run_end(s, k) == end,
{
    lemma_in_run_start(s, start, end, k);
    lemma_in_run_end(s, start, end, k);
}

proof fn lemma_in_run_start(s: Seq<u8>, start: int, end: int, k: int)
    requires
        0 <= start <= k < end <= s.len(),
        start == 0 || s[start - 1] != s[start],
        forall|i: int| start <= i < end ==> s[i] == s[start],
    ensures
        run_start(s, k) == start,
    decreases k,
{
    if k > start {
        lemma_in_run_start(s, start, end, k - 1);
    }
}

proof fn lemma_in_run_end(s: Seq<u8>, start: int, end: int, k: int)
    requires
        0 <= start <= k < end <= s.len(),
        end == s.len() || s[end] != s[start],
        forall|i: int| start <= i < end ==> s[i] == s[start],
    ensures
        run_end(s, k) == end,
    decreases s.len() - k,
{
    if k + 1 < end {
        lemma_in_run_end(s, start, end, k + 1);
    }
}

/// Every frame of `s` is 0 or 1.
pub open spec fn is_binary_track(s: Seq<u8>) -> bool {
    forall|k: int| 0 <= k < s.len() ==> #[trigger] s[k] <= 1
}

/// `s` with voiced and unvoiced frames exchanged.
pub open spec fn swap_voicing(s: Seq<u8>) -> Seq<u8> {
    Seq::new(s.len(), |k: int| (1 - s[k]) as u8)
}

proof fn lemma_swap_run_start(s: Seq<u8>, k: int)
    requires
        is_binary_track(s),
        0 <= k < s.len(),
    ensures
        run_start(swap_voicing(s), k) == run_start(s, k),
    decreases k,
{
    let t = swap_voicing(s);
    if k > 0 {
        assert(s[k - 1] <= 1 && s[k] <= 1);
        assert((t[k - 1] == t[k]) == (s[k - 1] == s[k]));
        lemma_swap_run_start(s, k - 1);
    }
}

proof fn lemma_swap_run_end(s: Seq<u8>, k: int)
    requires
        is_binary_track(s),
        0 <= k < s.len(),
    ensures
        run_end(swap_voicing(s), k) == run_end(s, k),
    decreases s.len() - k,
{
    let t = swap_voicing(s);
    if k + 1 < s.len() {
        assert(s[k + 1] <= 1 && s[k] <= 1);
        assert((t[k + 1] == t[k]) == (s[k + 1] == s[k]));
        lemma_swap_run_end(s, k + 1);
    }
}

/// Stabilization treats voiced and unvoiced runs alike: on a track of 0s and
/// 1s, exchanging voiced and unvoiced frames before stabilizing gives the
/// exchange of the stabilized track. A short voiced run between unvoiced
/// frames is filled just as a short unvoiced hole between voiced frames is.
pub proof fn law_stabilize_symmetric(s: Seq<u8>, render_length: int, preset: QualityPreset)
    requires
        is_binary_track(s),
    ensures
        stabilized(swap_voicing(s), render_length, preset) == swap_voicing(
            stabilized(s, render_length, preset),
        ),
        is_binary_track(stabilized(s, render_length, preset)),
{
    let t = swap_voicing(s);
    match min_run_len(preset, render_length) {
        None => {
            assert(stabilized(t, render_length, preset) =~= swap_voicing(stabilized(s, render_length, preset)));
        },
        Some(m) => {
            if render_length < 3 || s.len() < 3 {
                assert(stabilized(t, render_length, preset) =~= swap_voicing(stabilized(s, render_length, preset)));
            } else {
                let a = stabilized(t, render_length, preset);
                let b = swap_voicing(stabilized(s, render_length, preset));
                assert forall|k: int| 0 <= k < s.len() implies a[k] == b[k] by {
                    lemma_swap_run_start(s, k);
                    lemma_swap_run_end(s, k);
                    lemma_run_bounds(s, k);
                    let st = run_start(s, k);
                    let en = run_end(s, k);
                    if st > 0 {
                        assert(s[st - 1] <= 1);
                    }
                    if en < s.len() {
                        assert(s[en] <= 1);
                    }
                    assert(s[k] <= 1);
                }
                assert(a =~= b);
                assert forall|k: int| 0 <= k < s.len() implies #[trigger] stabilized(s, render_length, preset)[k] <= 1 by {
                    lemma_run_bounds(s, k);
                    let st = run_start(s, k);
                    if st > 0 {
                        assert(s[st - 1] <= 1);
                    }
                }
            }
        },
    }
}

/// Under a preset other than `Classic`, a run shorter than the preset's
/// minimum with equal neighbours on both sides, of the other value, takes
/// their value, whichever value the run has; other frames keep theirs.
pub proof fn law_short_runs_take_neighbour_value(s: Seq<u8>, render_length: int, preset: QualityPreset, start: int, end: int)
    requires
        render_length >= 3,
        s.len() >= 3,
        min_run_len(preset, render_length) matches Some(m) && end - start < m,
        0 < start < end < s.len(),
        forall|k: int| start <= k < end ==> s[k] == s[start],
        s[start - 1] == s[end],
        s[start - 1] != s[start],
    ensures
        forall|k: int| start <= k < end ==> #[trigger] stabilized(s, render_length, preset)[k] == s[start - 1],
{
    assert forall|k: int| start <= k < end implies #[trigger] stabilized(s, render_length, preset)[k] == s[start - 1] by {
        lemma_in_run(s, start, end, k);
    }
}

/// Fills short V/UV runs that sit between two runs of the other value, so
/// that a preset other than `Classic` does not flicker between voiced and
/// unvoiced: Balanced fills runs shorter than 2 frames, Clear and
/// BreathySafe shorter than 3, each one longer (at most 4) for renders
/// shorter than 24 frames.
pub fn stabilize_vuv_runs(vuv: &mut Vec<u8>, render_length: usize, quality_preset: QualityPreset)
    ensures
        final(vuv)@ == stabilized(old(vuv)@, render_length as int, quality_preset),
{
    let min_run: usize = match quality_preset {
        QualityPreset::Classic => {
            return ;
        },
        QualityPreset::Balanced => 2,
        QualityPreset::Clear => 3,
        QualityPreset::BreathySafe => 3,
    };
    if render_length < 3 || vuv.len() < 3 {
        return ;
    }
    let effective_min_run = if render_length < 24 {
        if min_run + 1 < 4 {
            min_run + 1
        } else {
            4
        }
    } else {
        min_run
    };
    let ghost m = effective_min_run as int;
    assert(min_run_len(quality_preset, render_length as int) == Some(m));
    let before = vuv.clone();
    let ghost s = before@;
    let n = before.len();
    let mut start: usize = 0;
    while start < n
        invariant
            n == s.len(),
            before@ == s,
            m == effective_min_run as int,
            vuv@.len() == n,
            start <= n,
            start == 0 || start == n || s[start - 1] != s[start as int],
            forall|k: int| 0 <= k < start ==> vuv@[k] == stabilized_at(s, k, m),
            forall|k: int| start <= k < n ==> vuv@[k] == s[k],
        decreases n - start,
    {
        let value = before[start];
        let mut end = start + 1;
        while end < n && before[end] == value
            invariant
                start < end <= n,
                n == s.len(),
                before@ == s,
                value == s[start as int],
                forall|i: int| start <= i < end ==> s[i] == value,
            decreases n - end,
        {
            end = end + 1;
        }
        proof {
            assert forall|k: int| start <= k < end implies run_start(s, k) == start && run_end(s, k)
                == end by {
                lemma_in_run(s, start as int, end as int, k);
            }
        }
        let run_len = end - start;
        let fill = run_len < effective_min_run && start > 0 && end < n && before[start - 1]
            == before[end] && before[start - 1] != value;
        let ghost fill_cond = (end - start) < m && start > 0 && end < s.len() && s[start - 1] == s[end as int]
            && s[start - 1] != value;
        assert(fill == fill_cond);
        if fill {
            let left = before[start - 1];
            let mut k = start;
            while k < end
                invariant
                    start <= k <= end <= n,
                    vuv@.len() == n,
                    forall|i: int| 0 <= i < start ==> vuv@[i] == stabilized_at(s, i, m),
                    forall|i: int| start <= i < k ==> vuv@[i] == left,
                    forall|i: int| end <= i < n ==> vuv@[i] == s[i],
                decreases end - k,
            {
                vuv.set(k, left);
                k = k + 1;
            }
        }
        proof {
            assert forall|i: int| start <= i < end implies vuv@[i] == stabilized_at(s, i, m) by {
                assert(run_start(s, i) == start && run_end(s, i) == end);
                assert(s[i] == value);
                assert(fill_cond == fill);
                if fill {
                    assert(vuv@[i] == s[start - 1]);
                } else {
                    assert(vuv@[i] == s[i]);
                }
            }
        }
        start = end;
    }
    assert(vuv@ =~= stabilized(s, render_length as int, quality_preset));
}

/// The V/UV track after the 3-frame majority pass over frames
/// `i .. render_length - 1`, which replaces each frame in turn, left to right,
/// by the majority of itself and its (already updated) neighbours.
pub open spec fn majority_pass(s: Seq<u8>, i: int, render_length: int) -> Seq<u8>
    decreases render_length - i,
{
    if i < 1 || i + 1 >= render_length {
        s
    } else {
        let sum = s[i - 1] as int + s[i] as int + s[i + 1] as int;
        majority_pass(s.update(i, if sum >= 2 {
            1u8
        } else {
            0u8
        }), i + 1, render_length)
    }
}

/// Smooths the V/UV track of a render of `render_length` frames with a
/// left-to-right 3-frame majority vote over its inner frames.
pub fn smooth_vuv_majority(vuv: &mut Vec<u8>, render_length: usize)
    requires
        render_length <= old(vuv)@.len(),
    ensures
        final(vuv)@ == majority_pass(old(vuv)@, 1, render_length as int),
{
    if render_length < 2 {
        return ;
    }
    let end = render_length - 1;
    let mut i: usize = 1;
    while i < end
        invariant
            1 <= i,
            i <= end || end == 0,
            end + 1 == render_length,
            render_length <= vuv@.len(),
            majority_pass(vuv@, i as int, render_length as int) == majority_pass(
                old(vuv)@,
                1,
                render_length as int,
            ),
        decreases end - i,
    {
        let sum = vuv[i - 1] as u16 + vuv[i] as u16 + vuv[i + 1] as u16;
        let v: u8 = if sum >= 2 {
            1
        } else {
            0
        };
        vuv.set(i, v);
        i = i + 1;
    }
}

/// `s` with every frame voiced when none was, otherwise unchanged.
pub open spec fn voiced_fallback(s: Seq<u8>) -> Seq<u8> {
    if forall|k: int| 0 <= k < s.len() ==> s[k] == 0 {
        Seq::new(s.len(), |k: int| 1u8)
    } else {
        s
    }
}

/// Treats every frame as voiced when the analysis found none voiced, so that
/// a fully unvoiced source still renders with pitch.
pub fn fill_voiced_if_silent(vuv: &mut Vec<u8>)
    ensures
        final(vuv)@ == voiced_fallback(old(vuv)@),
{
    let n = vuv.len();
    let mut i: usize = 0;
    while i < n
        invariant
            n == vuv@.len(),
            i <= n,
            forall|k: int| 0 <= k < i ==> vuv@[k] == 0,
        decreases n - i,
    {
        if vuv[i] != 0 {
            return ;
        }
        i = i + 1;
    }
    let ghost s = vuv@;
    let mut k: usize = 0;
    while k < n
        invariant
            n == vuv@.len(),
            k <= n,
            forall|j: int| 0 <= j < n ==> s[j] == 0,
            forall|j: int| 0 <= j < k ==> vuv@[j] == 1,
        decreases n - k,
    {
        vuv.set(k, 1);
        k = k + 1;
    }
    assert(vuv@ =~= voiced_fallback(s));
}

/// How the pitch of a render frame is scaled at voicing boundaries.
#[derive(Clone, Copy, Debug, PartialEq, Eq, Structural)]
pub enum BoundaryScale {
    /// A voiced frame (or one outside the track): full pitch.
    Voiced,
    /// An unvoiced frame next to a voiced one, outside `Classic`: a trace of pitch.
    Edge,
    /// Any other unvoiced frame: no pitch.
    Silent,
}

/// The boundary scale of frame `index` of the V/UV track `vuv`.
pub open spec fn boundary_scale_of(index: int, vuv: Seq<u8>, preset: QualityPreset) -> BoundaryScale {
    if !(0 <= index < vuv.len() && vuv[index] == 0) {
        BoundaryScale::Voiced
    } else if preset == QualityPreset::Classic {
        BoundaryScale::Silent
    } else if (index > 0 && vuv[index - 1] != 0) || (index + 1 < vuv.len() && vuv[index + 1] != 0) {
        BoundaryScale::Edge
    } else {
        BoundaryScale::Silent
    }
}

/// Classifies frame `index` for pitch scaling at voicing boundaries.
pub fn boundary_f0_scale(index: usize, vuv_render: &[u8], quality_preset: QualityPreset) -> (r: BoundaryScale)
    ensures
        r == boundary_scale_of(index as int, vuv_render@, quality_preset),
{
    if !(index < vuv_render.len() && vuv_render[index] == 0) {
        return BoundaryScale::Voiced;
    }
    if quality_preset == QualityPreset::Classic {
        return BoundaryScale::Silent;
    }
    let near_left = index > 0 && vuv_render[index - 1] != 0;
    let near_right = index + 1 < vuv_render.len() && vuv_render[index + 1] != 0;
    if near_left || near_right {
        BoundaryScale::Edge
    } else {
        BoundaryScale::Silent
    }
}

} // verus!

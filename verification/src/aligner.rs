//! The audio alignment planner: fit each synthesized clip into its
//! subtitle time slot, filling gaps with silence, padding short clips and
//! trimming overlong ones, so that the emitted pieces concatenate into a
//! track of the intended total length.

use vstd::prelude::*;
use crate::errors::DubError;

verus! {

/// One completed TTS clip to place on the timeline.
#[derive(Debug, Clone, PartialEq, Eq)]
pub struct AlignedSegment {
    pub subtitle_index: i32,
    pub start_ms: i64,
    pub tts_audio_path: String,
    pub tts_duration_ms: i64,
}

/// One piece of the output track, in order.
#[derive(Debug, PartialEq, Eq)]
pub enum AlignStep {
    /// Generated silence of this length.
    Silence { duration_ms: i64 },
    /// Clip `seg`, padded with silence to `clip_ms + pad_ms`.
    PadClip { seg: usize, pad_ms: i64 },
    /// Clip `seg` unchanged.
    CopyClip { seg: usize },
    /// Clip `seg` cut down to its first `keep_ms` milliseconds.
    TrimClip { seg: usize, keep_ms: i64 },
}

/// Slot of segment `k`: from its start to the next start (the total
/// duration after the last segment).
pub open spec fn spec_avail(segs: Seq<AlignedSegment>, total: int, k: int) -> int {
    if k + 1 < segs.len() {
        segs[k + 1].start_ms - segs[k].start_ms
    } else {
        total - segs[k].start_ms
    }
}

/// The output length a step contributes.
pub open spec fn spec_step_len(segs: Seq<AlignedSegment>, st: AlignStep) -> int {
    match st {
        AlignStep::Silence { duration_ms } => duration_ms as int,
        AlignStep::PadClip { seg, pad_ms } => segs[seg as int].tts_duration_ms + pad_ms,
        AlignStep::CopyClip { seg } => segs[seg as int].tts_duration_ms as int,
        AlignStep::TrimClip { seg, keep_ms } => keep_ms as int,
    }
}

/// Total output length of a plan.
pub open spec fn spec_plan_len(segs: Seq<AlignedSegment>, steps: Seq<AlignStep>) -> int
    decreases steps.len(),
{
    if steps.len() == 0 {
        0
    } else {
        spec_step_len(segs, steps[0]) + spec_plan_len(segs, steps.drop_first())
    }
}

/// Alignment inputs are sane: starts are nonnegative and strictly
/// increasing, durations nonnegative, and the total extends past the last
/// start.
pub open spec fn spec_segments_ok(segs: Seq<AlignedSegment>, total: int) -> bool {
    &&& forall|i: int| 0 <= i < segs.len() ==> (#[trigger] segs[i]).start_ms >= 0
    &&& forall|i: int| 0 <= i < segs.len() ==> (#[trigger] segs[i]).tts_duration_ms >= 0
    &&& forall|i: int|
        0 <= i < segs.len() - 1 ==> (#[trigger] segs[i]).start_ms < segs[i + 1].start_ms
    &&& segs.len() > 0 ==> segs.last().start_ms < total
}

/// The step placed for segment `k`: the clip padded to its slot when it is
/// shorter, passed through when it fills it exactly, else trimmed to
/// `min(slot * 13/10, slot)`.
pub open spec fn spec_clip_step(segs: Seq<AlignedSegment>, total: int, k: int) -> AlignStep {
    let avail = spec_avail(segs, total, k);
    let tts = segs[k].tts_duration_ms as int;
    if tts < avail {
        AlignStep::PadClip { seg: k as usize, pad_ms: ((avail - tts) as i64) }
    } else if tts == avail {
        AlignStep::CopyClip { seg: k as usize }
    } else {
        AlignStep::TrimClip {
            seg: k as usize,
            keep_ms: (spec_min(avail * 13 / 10, avail) as i64),
        }
    }
}

/// Minimum of two mathematical integers.
pub open spec fn spec_min(a: int, b: int) -> int {
    if a < b {
        a
    } else {
        b
    }
}

/// Whether the plan opens with a leading silence: only when the first
/// clip starts more than 10 ms in.
pub open spec fn spec_lead(segs: Seq<AlignedSegment>) -> int {
    if segs[0].start_ms > 10 {
        1
    } else {
        0
    }
}

/// Plan the dubbed track.
///
/// Fails with `NoAudio` exactly when no completed clip exists. Otherwise
/// the plan is: one leading silence up to the first start when that gap
/// exceeds 10 ms, then one step per segment filling its slot — padded,
/// copied or trimmed as the slot demands. Each clip's slot runs to the
/// next clip's start (the total duration for the last), so the plan's
/// total output length is exactly `total_duration_ms` minus any
/// sub-threshold lead gap.
pub fn align_plan(segments: &Vec<AlignedSegment>, total_duration_ms: i64) -> (r: Result<
    Vec<AlignStep>,
    DubError,
>)
    requires
        spec_segments_ok(segments@, total_duration_ms as int),
    ensures
        (r is Err) <==> segments@.len() == 0,
        r matches Err(e) ==> e is NoAudio,
        r matches Ok(steps) ==> ({
            let off = spec_lead(segments@);
            &&& steps@.len() == segments@.len() + off
            &&& (off == 1 ==> steps@[0] == (AlignStep::Silence {
                duration_ms: segments@[0].start_ms,
            }))
            &&& forall|k: int|
                0 <= k < segments@.len() ==> steps@[k + off] == spec_clip_step(
                    segments@,
                    total_duration_ms as int,
                    k,
                )
        }),
{
    if segments.len() == 0 {
        return Err(DubError::NoAudio);
    }
    let n = segments.len();
    let mut steps: Vec<AlignStep> = Vec::new();
    let first_start = segments[0].start_ms;
    if first_start > 10 {
        steps.push(AlignStep::Silence { duration_ms: first_start });
    }
    let ghost off = spec_lead(segments@);
    let mut k: usize = 0;
    while k < n
        invariant
            k <= n,
            n == segments@.len(),
            spec_segments_ok(segments@, total_duration_ms as int),
            off == spec_lead(segments@),
            steps@.len() == k + off,
            off == 1 ==> steps@[0] == (AlignStep::Silence { duration_ms: segments@[0].start_ms }),
            forall|j: int|
                0 <= j < k ==> steps@[j + off] == spec_clip_step(
                    segments@,
                    total_duration_ms as int,
                    j,
                ),
        decreases n - k,
    {
        let seg_start = segments[k].start_ms;
        let next_start = if k + 1 < n {
            segments[k + 1].start_ms
        } else {
            total_duration_ms
        };
        let avail = next_start - seg_start;
        let tts = segments[k].tts_duration_ms;
        if tts < avail {
            steps.push(AlignStep::PadClip { seg: k, pad_ms: avail - tts });
        } else if tts == avail {
            steps.push(AlignStep::CopyClip { seg: k });
        } else {
            let scaled_wide: i128 = (avail as i128) * 13 / 10;
            let keep: i64 = if scaled_wide < (avail as i128) {
                scaled_wide as i64
            } else {
                avail
            };
            steps.push(AlignStep::TrimClip { seg: k, keep_ms: keep });
        }
        k += 1;
    }
    Ok(steps)
}

/// The telescoping length law of a plan: with a lead silence (or a first
/// clip starting at zero) the steps' lengths add up to exactly the total
/// duration; a sub-threshold lead gap of at most 10 ms is the only
/// shortfall.
pub proof fn lemma_plan_total_len(segs: Seq<AlignedSegment>, total: int, steps: Seq<AlignStep>)
    requires
        spec_segments_ok(segs, total),
        segs.len() > 0,
        segs.len() <= usize::MAX,
        total <= i64::MAX,
        steps.len() == segs.len() + spec_lead(segs),
        spec_lead(segs) == 1 ==> steps[0] == (AlignStep::Silence {
            duration_ms: segs[0].start_ms,
        }),
        forall|k: int|
            0 <= k < segs.len() ==> steps[k + spec_lead(segs)] == spec_clip_step(segs, total, k),
    ensures
        spec_plan_len(segs, steps) == total - (if segs[0].start_ms > 10 {
            0int
        } else {
            segs[0].start_ms as int
        }),
{
    let off = spec_lead(segs);
    lemma_clip_run_len(segs, total, steps, 0);
    if off == 1 {
        assert(steps.skip(0) =~= steps);
        assert(steps.skip(0).drop_first() =~= steps.skip(1));
        assert(spec_plan_len(segs, steps) == segs[0].start_ms + spec_plan_len(
            segs,
            steps.skip(1),
        ));
    } else {
        assert(steps.skip(0) =~= steps);
    }
}

/// The clip steps from segment `k` on produce exactly the span from
/// `segs[k].start_ms` to the total.
proof fn lemma_clip_run_len(segs: Seq<AlignedSegment>, total: int, steps: Seq<AlignStep>, k: int)
    requires
        spec_segments_ok(segs, total),
        segs.len() > 0,
        segs.len() <= usize::MAX,
        total <= i64::MAX,
        steps.len() == segs.len() + spec_lead(segs),
        forall|j: int|
            0 <= j < segs.len() ==> steps[j + spec_lead(segs)] == spec_clip_step(segs, total, j),
        0 <= k <= segs.len(),
    ensures
        spec_plan_len(segs, steps.skip(k + spec_lead(segs))) == (if k < segs.len() {
            total - segs[k].start_ms
        } else {
            0int
        }),
    decreases segs.len() - k,
{
    let off = spec_lead(segs);
    if k == segs.len() {
        assert(steps.skip(k + off) =~= Seq::<AlignStep>::empty());
    } else {
        lemma_clip_run_len(segs, total, steps, k + 1);
        let rest = steps.skip(k + off);
        assert(rest[0] == steps[k + off]);
        assert(rest.drop_first() =~= steps.skip(k + 1 + off));
        let avail = spec_avail(segs, total, k);
        assert(avail > 0);
        assert(spec_step_len(segs, spec_clip_step(segs, total, k)) == avail) by {
            let tts = segs[k].tts_duration_ms as int;
            assert(((k as usize) as int) == k);
            assert(0 < avail <= i64::MAX);
            if tts > avail {
                assert(avail * 13 / 10 >= avail) by (nonlinear_arith)
                    requires
                        avail > 0,
                ;
                assert(spec_min(avail * 13 / 10, avail) == avail);
            }
        }
        if k + 1 < segs.len() {
            assert(spec_plan_len(segs, rest) == (segs[k + 1].start_ms - segs[k].start_ms) + (total
                - segs[k + 1].start_ms));
        }
    }
}

/// A single short clip becomes: a leading silence up to its start (when
/// over the threshold), then the clip padded with exactly
/// `total − start − clip` milliseconds of trailing silence.
pub proof fn lemma_single_short_clip(segs: Seq<AlignedSegment>, total: int, steps: Seq<AlignStep>)
    requires
        spec_segments_ok(segs, total),
        segs.len() == 1,
        total <= i64::MAX,
        segs[0].tts_duration_ms < total - segs[0].start_ms,
        steps.len() == 1 + spec_lead(segs),
        spec_lead(segs) == 1 ==> steps[0] == (AlignStep::Silence {
            duration_ms: segs[0].start_ms,
        }),
        forall|k: int|
            0 <= k < segs.len() ==> steps[k + spec_lead(segs)] == spec_clip_step(segs, total, k),
    ensures
        steps[spec_lead(segs)] == (AlignStep::PadClip {
            seg: 0usize,
            pad_ms: ((total - segs[0].start_ms - segs[0].tts_duration_ms) as i64),
        }),
        segs[0].start_ms > 10 ==> steps[0] == (AlignStep::Silence {
            duration_ms: segs[0].start_ms,
        }),
{
    assert(steps[spec_lead(segs)] == spec_clip_step(segs, total, 0));
}

/// A clip longer than its slot is trimmed to `min(slot·13/10, slot)` —
/// never passed through, and never cut below the slot.
pub proof fn lemma_overlong_clip_trimmed(segs: Seq<AlignedSegment>, total: int, k: int)
    requires
        spec_segments_ok(segs, total),
        0 <= k < segs.len(),
        k <= usize::MAX,
        total <= i64::MAX,
        segs[k].tts_duration_ms > spec_avail(segs, total, k),
    ensures
        spec_clip_step(segs, total, k) == (AlignStep::TrimClip {
            seg: k as usize,
            keep_ms: (spec_min(
                spec_avail(segs, total, k) * 13 / 10,
                spec_avail(segs, total, k),
            ) as i64),
        }),
        spec_min(spec_avail(segs, total, k) * 13 / 10, spec_avail(segs, total, k)) == spec_avail(
            segs,
            total,
            k,
        ),
{
    let avail = spec_avail(segs, total, k);
    assert(avail >= 0);
    assert(avail * 13 / 10 >= avail) by (nonlinear_arith)
        requires
            avail >= 0,
    ;
}

} // verus!

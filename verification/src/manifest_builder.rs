//! Builder from a timed execution plan to an execution manifest: duplicate
//! waypoints collapse, plan segments are mapped onto the surviving samples,
//! and the result is held to the structural manifest rules.
//!
//! Timestamps are real numbers; how two consecutive waypoints relate (a
//! forward step of so many microseconds, a bit-exact repeat, or a conflicting
//! position at the same instant) is decided where they are read, and handed
//! here as a [`WaypointStep`].

use vstd::prelude::*;
use crate::manifest::{
    ExecutionManifest, ManifestInstruction, ManifestMetadata, ManifestSegment, ManifestViolation,
    TimedWaypoint, coverage_end, first_violation, structural_violation, total_dt, validate_structure,
};

verus! {

/// How a plan waypoint relates to the one before it.
#[derive(Debug, PartialEq)]
pub enum WaypointStep<J> {
    /// A new sample, `dt_us` microseconds after the previous waypoint (0 for
    /// the first).
    Advance { joints: Vec<J>, dt_us: u32 },
    /// Same instant and bit-exact same position as the previous waypoint.
    Repeat,
    /// Same instant as the previous waypoint but another position.
    Conflict,
}

/// A plan segment: its provenance index, its motion type and the range
/// `[waypoint_start, waypoint_end)` of plan waypoints it spans.
#[derive(Debug, Clone, Copy, PartialEq, Eq, Structural)]
pub struct SegmentSpan {
    pub planned_segment_index: usize,
    pub instruction: ManifestInstruction,
    pub waypoint_start: usize,
    pub waypoint_end: usize,
}

/// A timed plan, as the manifest builder reads it.
#[derive(Debug, PartialEq)]
pub struct ExecutionPlanSteps<J> {
    pub steps: Vec<WaypointStep<J>>,
    pub segments: Vec<SegmentSpan>,
    pub duration_us: u64,
    pub repeat_count: u32,
}

/// Why a plan could not become a manifest.
#[derive(Debug, Clone, Copy, PartialEq, Eq, Structural)]
pub enum BuilderError {
    /// Waypoint `index` shares its instant with the previous one but not its
    /// position.
    DedupConflict { index: usize },
    /// The manifest breaks a structural rule.
    Validation(ManifestViolation),
}

/// Samples that survive deduplication, and for each plan waypoint the index
/// of the sample that stands for it; or the first conflicting waypoint.
pub open spec fn deduped<J>(steps: Seq<WaypointStep<J>>) -> Result<
    (Seq<TimedWaypoint<J>>, Seq<int>),
    nat,
>
    decreases steps.len(),
{
    if steps.len() == 0 {
        Ok((Seq::empty(), Seq::empty()))
    } else {
        match deduped(steps.drop_last()) {
            Err(i) => Err(i),
            Ok((samples, keep)) => match steps.last() {
                WaypointStep::Advance { joints, dt_us } => Ok(
                    (samples.push(TimedWaypoint { joints, dt_us }), keep.push(samples.len() as int)),
                ),
                WaypointStep::Repeat => Ok((samples, keep.push(samples.len() - 1))),
                WaypointStep::Conflict => Err((steps.len() - 1) as nat),
            },
        }
    }
}

pub open spec fn min_int(a: int, b: int) -> int {
    if a <= b {
        a
    } else {
        b
    }
}

pub open spec fn max_int(a: int, b: int) -> int {
    if a >= b {
        a
    } else {
        b
    }
}

/// The manifest segment of plan segment `s`, given the waypoint-to-sample
/// map `keep` and where the previous segment ended; and where it ends.
pub open spec fn mapped_segment(s: SegmentSpan, keep: Seq<int>, partition_end: int) -> (
    ManifestSegment,
    int,
) {
    let first = min_int(s.waypoint_start as int, keep.len() as int);
    let start = max_int(partition_end, if first < keep.len() { keep[first] } else { 0 });
    let last = min_int(if s.waypoint_end >= 1 { s.waypoint_end - 1 } else { 0 }, keep.len() as int);
    let end = max_int(start, if last < keep.len() { keep[last] + 1 } else { start });
    (
        ManifestSegment {
            index: s.planned_segment_index,
            instruction: s.instruction,
            sample_start: start as usize,
            sample_count: (end - start) as usize,
        },
        end,
    )
}

/// The manifest segments of `spans`, laid out in order, and where the last
/// one ends.
pub open spec fn mapped_segments(spans: Seq<SegmentSpan>, keep: Seq<int>) -> (
    Seq<ManifestSegment>,
    int,
)
    decreases spans.len(),
{
    if spans.len() == 0 {
        (Seq::empty(), 0)
    } else {
        let (prev, end) = mapped_segments(spans.drop_last(), keep);
        let (seg, new_end) = mapped_segment(spans.last(), keep, end);
        (prev.push(seg), new_end)
    }
}

/// The metadata of the manifest built from these samples.
pub open spec fn built_metadata<J>(samples: Seq<TimedWaypoint<J>>, duration_us: u64, repeat_count: u32) -> ManifestMetadata {
    ManifestMetadata {
        dof_count: if samples.len() > 0 {
            samples[0].joints@.len() as usize
        } else {
            0
        },
        total_samples: samples.len() as usize,
        duration_us,
        repeat_count,
    }
}

/// The first waypoint has no predecessor to repeat.
pub open spec fn steps_well_formed<J>(steps: Seq<WaypointStep<J>>) -> bool {
    steps.len() > 0 ==> !(steps[0] is Repeat)
}

/// Builds the manifest of a timed plan and validates it.
pub struct ExecutionManifestBuilder;

impl ExecutionManifestBuilder {
    /// Collapses repeated waypoints (keeping the earlier sample), maps each
    /// plan segment onto the surviving samples so that consecutive segments
    /// never overlap, fills in the metadata and checks the six structural
    /// rules. A waypoint that shares its instant but not its position with
    /// the previous one is refused, the first such one reported. The joint
    /// envelope and velocity rules are not judged here: a manifest this
    /// returns still has to pass them before upload.
    pub fn build<J>(plan: ExecutionPlanSteps<J>) -> (r: Result<ExecutionManifest<J>, BuilderError>)
        requires
            steps_well_formed(plan.steps@),
        ensures
            match deduped(plan.steps@) {
                Err(i) => r == Err::<ExecutionManifest<J>, BuilderError>(BuilderError::DedupConflict { index: i as usize }),
                Ok((samples, keep)) => {
                    let segs = mapped_segments(plan.segments@, keep).0;
                    let meta = built_metadata(samples, plan.duration_us, plan.repeat_count);
                    &&& r matches Ok(m) ==> m.samples@ == samples && m.segments@ == segs && m.metadata == meta
                    &&& match structural_violation(samples, segs, meta) {
                        Some(v) => r == Err::<ExecutionManifest<J>, BuilderError>(BuilderError::Validation(v)),
                        None => r is Ok,
                    }
                },
            },
    {
        let duration_us = plan.duration_us;
        let repeat_count = plan.repeat_count;
        let segments = plan.segments;
        let mut steps = plan.steps;
        let ghost orig = steps@;
        let n = steps.len();
        let mut samples: Vec<TimedWaypoint<J>> = Vec::new();
        let mut keep: Vec<usize> = Vec::new();
        let mut i: usize = 0;
        while i < n
            invariant
                n == orig.len(),
                orig == plan.steps@,
                steps@.len() == n,
                i <= n,
                steps_well_formed(orig),
                forall|k: int| i <= k < n ==> steps@[k] == orig[k],
                deduped(orig.take(i as int)) matches Ok((s, kp)) && s == samples@ && kp.len() == keep@.len()
                    && forall|k: int| 0 <= k < keep@.len() ==> kp[k] == keep@[k] as int,
                forall|k: int| 0 <= k < keep@.len() ==> keep@[k] < samples@.len(),
                keep@.len() == i,
                samples@.len() <= i,
                i > 0 ==> samples@.len() > 0,
            decreases n - i,
        {
            let mut step = WaypointStep::Repeat;
            steps.set_and_swap(i, &mut step);
            proof {
                assert(orig.take(i as int + 1).drop_last() =~= orig.take(i as int));
            }
            match step {
                WaypointStep::Advance { joints, dt_us } => {
                    keep.push(samples.len());
                    samples.push(TimedWaypoint { joints, dt_us });
                },
                WaypointStep::Repeat => {
                    keep.push(samples.len() - 1);
                },
                WaypointStep::Conflict => {
                    proof {
                        assert(orig.take(i as int + 1).last() == orig[i as int]);
                        assert(deduped(orig.take(i as int + 1)) == Err::<(Seq<TimedWaypoint<J>>, Seq<int>), nat>(i as nat));
                        lemma_conflict_is_final(orig, i as int + 1);
                    }
                    return Err(BuilderError::DedupConflict { index: i });
                },
            }
            i = i + 1;
        }
        proof {
            assert(orig.take(n as int) =~= orig);
        }
        let ghost kp = deduped(orig)->Ok_0.1;
        let total = samples.len();
        let mut segs: Vec<ManifestSegment> = Vec::new();
        let mut partition_end: usize = 0;
        let ns = segments.len();
        let mut j: usize = 0;
        while j < ns
            invariant
                ns == segments@.len(),
                j <= ns,
                total == samples@.len(),
                kp.len() == keep@.len(),
                forall|k: int| 0 <= k < keep@.len() ==> kp[k] == keep@[k] as int,
                forall|k: int| 0 <= k < keep@.len() ==> keep@[k] < total,
                mapped_segments(segments@.take(j as int), kp) == (segs@, partition_end as int),
                partition_end <= total,
            decreases ns - j,
        {
            let s = segments[j];
            let first = if s.waypoint_start < keep.len() { s.waypoint_start } else { keep.len() };
            let kf = if first < keep.len() { keep[first] } else { 0 };
            let start = if partition_end >= kf { partition_end } else { kf };
            let last_raw = if s.waypoint_end >= 1 { s.waypoint_end - 1 } else { 0 };
            let last = if last_raw < keep.len() { last_raw } else { keep.len() };
            let kl = if last < keep.len() { keep[last] + 1 } else { start };
            let end = if start >= kl { start } else { kl };
            segs.push(ManifestSegment {
                index: s.planned_segment_index,
                instruction: s.instruction,
                sample_start: start,
                sample_count: end - start,
            });
            proof {
                assert(segments@.take(j as int + 1).drop_last() =~= segments@.take(j as int));
            }
            partition_end = end;
            j = j + 1;
        }
        proof {
            assert(segments@.take(ns as int) =~= segments@);
        }
        let dof_count = if total > 0 { samples[0].joints.len() } else { 0 };
        let manifest = ExecutionManifest {
            metadata: ManifestMetadata { dof_count, total_samples: total, duration_us, repeat_count },
            segments: segs,
            samples,
        };
        match validate_structure(&manifest) {
            Ok(()) => Ok(manifest),
            Err(v) => Err(BuilderError::Validation(v)),
        }
    }

    /// Checks the six structural manifest rules, reporting the first broken
    /// one. The joint envelope and velocity rules are not judged here.
    pub fn validate<J>(manifest: &ExecutionManifest<J>) -> (r: Result<(), BuilderError>)
        ensures
            match first_violation(*manifest) {
                Some(v) => r == Err::<(), BuilderError>(BuilderError::Validation(v)),
                None => r is Ok,
            },
    {
        match validate_structure(manifest) {
            Ok(()) => Ok(()),
            Err(v) => Err(BuilderError::Validation(v)),
        }
    }
}

/// A plan of `total_samples` waypoints whose duration, truncated to whole
/// microseconds, is `duration_us` cannot give each gap a microsecond: its
/// timing collapses entirely.
pub fn needs_degenerate_manifest(total_samples: usize, duration_us: u64) -> (r: bool)
    ensures
        r == (total_samples > 1 && duration_us < total_samples - 1),
{
    total_samples > 1 && duration_us < (total_samples - 1) as u64
}

/// The manifest of a plan whose timing collapsed: every waypoint a sample
/// with no delay, one joint-space segment over all of them, and no
/// declared duration; the firmware bounds the velocity itself.
pub fn degenerate_manifest<J>(waypoints: Vec<Vec<J>>, repeat_count: u32) -> (m: ExecutionManifest<J>)
    ensures
        m.samples@.len() == waypoints@.len(),
        forall|i: int| 0 <= i < waypoints@.len() ==> (#[trigger] m.samples@[i]).joints == waypoints@[i]
            && m.samples@[i].dt_us == 0,
        m.segments@ == seq![
            ManifestSegment {
                index: 0,
                instruction: ManifestInstruction::MoveJ,
                sample_start: 0,
                sample_count: waypoints@.len() as usize,
            },
        ],
        m.metadata == (ManifestMetadata {
            dof_count: if waypoints@.len() > 0 {
                waypoints@[0]@.len() as usize
            } else {
                0
            },
            total_samples: waypoints@.len() as usize,
            duration_us: 0,
            repeat_count,
        }),
        waypoints@.len() > 0 && (forall|i: int|
            0 <= i < waypoints@.len() ==> (#[trigger] waypoints@[i])@.len() == waypoints@[0]@.len())
            ==> first_violation(m) is None,
{
    let mut waypoints = waypoints;
    let ghost orig = waypoints@;
    let n = waypoints.len();
    let dof_count = if n > 0 { waypoints[0].len() } else { 0 };
    let mut samples: Vec<TimedWaypoint<J>> = Vec::new();
    let mut i: usize = 0;
    while i < n
        invariant
            n == orig.len(),
            waypoints@.len() == n,
            i <= n,
            forall|k: int| i <= k < n ==> waypoints@[k] == orig[k],
            samples@.len() == i,
            forall|k: int| 0 <= k < i ==> (#[trigger] samples@[k]).joints == orig[k] && samples@[k].dt_us == 0,
        decreases n - i,
    {
        let mut joints: Vec<J> = Vec::new();
        waypoints.set_and_swap(i, &mut joints);
        samples.push(TimedWaypoint { joints, dt_us: 0 });
        i = i + 1;
    }
    let mut segments: Vec<ManifestSegment> = Vec::new();
    segments.push(ManifestSegment {
        index: 0,
        instruction: ManifestInstruction::MoveJ,
        sample_start: 0,
        sample_count: n,
    });
    proof {
        assert(segments@ =~= seq![
            ManifestSegment {
                index: 0,
                instruction: ManifestInstruction::MoveJ,
                sample_start: 0,
                sample_count: n,
            },
        ]);
    }
    let m = ExecutionManifest {
        metadata: ManifestMetadata { dof_count, total_samples: n, duration_us: 0, repeat_count },
        segments,
        samples,
    };
    proof {
        lemma_zero_delays(m.samples@);
        assert(m.segments@.len() == 1);
        assert(m.segments@.drop_last() =~= Seq::<ManifestSegment>::empty());
        assert(coverage_end(m.segments@.drop_last()) == Some(0nat));
        assert(m.segments@.last().sample_start == 0);
        assert(coverage_end(m.segments@) == Some(n as nat));
    }
    m
}

proof fn lemma_zero_delays<J>(samples: Seq<TimedWaypoint<J>>)
    requires
        forall|i: int| 0 <= i < samples.len() ==> (#[trigger] samples[i]).dt_us == 0,
    ensures
        total_dt(samples) == 0,
    decreases samples.len(),
{
    if samples.len() > 0 {
        lemma_zero_delays(samples.drop_last());
    }
}

proof fn lemma_conflict_is_final<J>(steps: Seq<WaypointStep<J>>, k: int)
    requires
        1 <= k <= steps.len(),
        deduped(steps.take(k)) == Err::<(Seq<TimedWaypoint<J>>, Seq<int>), nat>((k - 1) as nat),
    ensures
        deduped(steps) == Err::<(Seq<TimedWaypoint<J>>, Seq<int>), nat>((k - 1) as nat),
    decreases steps.len() - k,
{
    if k < steps.len() {
        assert(steps.drop_last().take(k) =~= steps.take(k));
        lemma_conflict_is_final(steps.drop_last(), k);
    } else {
        assert(steps.take(k) =~= steps);
    }
}

/// Law: the segments mapped onto the samples never overlap and never reach
/// past the last sample: each starts no earlier than the previous one ends.
pub proof fn lemma_mapped_segments_do_not_overlap(spans: Seq<SegmentSpan>, keep: Seq<int>, total: int, i: int)
    requires
        0 <= total <= usize::MAX,
        forall|k: int| 0 <= k < keep.len() ==> 0 <= #[trigger] keep[k] < total,
        0 <= i < spans.len(),
    ensures
        ({
            let segs = mapped_segments(spans, keep).0;
            &&& segs.len() == spans.len()
            &&& segs[i].sample_start + segs[i].sample_count <= total
            &&& i > 0 ==> segs[i].sample_start >= segs[i - 1].sample_start + segs[i - 1].sample_count
        }),
    decreases spans.len(),
{
    lemma_mapped_segments_bounded(spans, keep, total);
    if i < spans.len() - 1 {
        lemma_mapped_segments_do_not_overlap(spans.drop_last(), keep, total, i);
    } else {
        lemma_mapped_segments_bounded(spans.drop_last(), keep, total);
        if i > 0 {
            lemma_mapped_segments_end(spans.drop_last(), keep, total);
        }
    }
}

proof fn lemma_mapped_segments_bounded(spans: Seq<SegmentSpan>, keep: Seq<int>, total: int)
    requires
        0 <= total <= usize::MAX,
        forall|k: int| 0 <= k < keep.len() ==> 0 <= #[trigger] keep[k] < total,
    ensures
        0 <= mapped_segments(spans, keep).1 <= total,
        mapped_segments(spans, keep).0.len() == spans.len(),
        mapped_segments(spans, keep).0 == mapped_segments(spans.drop_last(), keep).0.push(
            mapped_segment(spans.last(), keep, mapped_segments(spans.drop_last(), keep).1).0,
        ) || spans.len() == 0,
    decreases spans.len(),
{
    if spans.len() > 0 {
        lemma_mapped_segments_bounded(spans.drop_last(), keep, total);
    }
}

proof fn lemma_mapped_segments_end(spans: Seq<SegmentSpan>, keep: Seq<int>, total: int)
    requires
        0 <= total <= usize::MAX,
        forall|k: int| 0 <= k < keep.len() ==> 0 <= #[trigger] keep[k] < total,
        spans.len() > 0,
    ensures
        ({
            let (segs, end) = mapped_segments(spans, keep);
            end == segs.last().sample_start + segs.last().sample_count
        }),
{
    lemma_mapped_segments_bounded(spans.drop_last(), keep, total);
}

} // verus!

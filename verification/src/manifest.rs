//! Execution manifests: the flat, delta-timed waypoint sequence uploaded to
//! a hardware backend, organised into segments, and the firmware-parity
//! structural rules a manifest must satisfy.
//!
//! Waypoint joint values are generic (`J`): the rules here never look at
//! them, only at how many there are.

use vstd::prelude::*;

verus! {

/// Type of motion of a manifest segment.
#[derive(Debug, Clone, Copy, PartialEq, Eq, Structural)]
pub enum ManifestInstruction {
    /// Joint-space movement.
    MoveJ,
    /// Cartesian linear movement.
    MoveL,
}

/// A single timed waypoint; `dt_us` is the delay since the previous one.
#[derive(Debug, PartialEq)]
pub struct TimedWaypoint<J> {
    pub joints: Vec<J>,
    pub dt_us: u32,
}

/// A segment of a manifest, mapped back to a segment of the plan.
#[derive(Debug, Clone, Copy, PartialEq, Eq, Structural)]
pub struct ManifestSegment {
    pub index: usize,
    pub instruction: ManifestInstruction,
    pub sample_start: usize,
    pub sample_count: usize,
}

/// Metadata describing a manifest.
#[derive(Debug, Clone, Copy, PartialEq, Eq, Structural)]
pub struct ManifestMetadata {
    pub dof_count: usize,
    pub total_samples: usize,
    pub duration_us: u64,
    pub repeat_count: u32,
}

/// A complete execution manifest.
#[derive(Debug, PartialEq)]
pub struct ExecutionManifest<J> {
    pub metadata: ManifestMetadata,
    pub segments: Vec<ManifestSegment>,
    pub samples: Vec<TimedWaypoint<J>>,
}

/// A single sample of a collected execution trace.
#[derive(Debug, PartialEq)]
pub struct ExecutionSample<J> {
    pub timestamp_us: u64,
    pub joints: Vec<J>,
}

/// A rule of the firmware validator that a manifest breaks. The first six
/// are structural and decided here; the last two judge joint values against
/// the physical safety envelope, which is real arithmetic, and are decided by
/// the runtime around this library after the structural rules pass.
#[derive(Debug, Clone, Copy, PartialEq, Eq, Structural)]
pub enum ManifestViolation {
    EmptyManifest,
    DofMismatch,
    WaypointCount,
    SegmentOrder,
    SegmentCoverage,
    TimingInvalid,
    /// A joint outside its channel's position envelope.
    InvalidJoint,
    /// A gap whose implied joint velocity exceeds its channel's ceiling.
    VelocityExceeded,
}

impl ManifestViolation {
    /// The firmware diagnostic code of the violated rule.
    pub fn code(&self) -> (r: &'static str)
        ensures
            r@ == violation_code(*self),
    {
        match self {
            ManifestViolation::EmptyManifest => "EMPTY_MANIFEST",
            ManifestViolation::DofMismatch => "DOF_MISMATCH",
            ManifestViolation::WaypointCount => "WAYPOINT_COUNT",
            ManifestViolation::SegmentOrder => "SEGMENT_ORDER",
            ManifestViolation::SegmentCoverage => "SEGMENT_COVERAGE",
            ManifestViolation::TimingInvalid => "TIMING_INVALID",
            ManifestViolation::InvalidJoint => "INVALID_JOINT",
            ManifestViolation::VelocityExceeded => "VELOCITY_EXCEEDED",
        }
    }
}

pub open spec fn violation_code(v: ManifestViolation) -> Seq<char> {
    match v {
        ManifestViolation::EmptyManifest => "EMPTY_MANIFEST"@,
        ManifestViolation::DofMismatch => "DOF_MISMATCH"@,
        ManifestViolation::WaypointCount => "WAYPOINT_COUNT"@,
        ManifestViolation::SegmentOrder => "SEGMENT_ORDER"@,
        ManifestViolation::SegmentCoverage => "SEGMENT_COVERAGE"@,
        ManifestViolation::TimingInvalid => "TIMING_INVALID"@,
        ManifestViolation::InvalidJoint => "INVALID_JOINT"@,
        ManifestViolation::VelocityExceeded => "VELOCITY_EXCEEDED"@,
    }
}

/// Segments partition `[0, total)` in order: each starts where the previous
/// ended, the first at 0, and the last ends at `total`.
pub open spec fn covers(segs: Seq<ManifestSegment>, total: nat) -> bool {
    coverage_end(segs) == Some(total)
}

/// Where contiguous segments starting at 0 end, if they are contiguous.
pub open spec fn coverage_end(segs: Seq<ManifestSegment>) -> Option<nat>
    decreases segs.len(),
{
    if segs.len() == 0 {
        Some(0)
    } else {
        match coverage_end(segs.drop_last()) {
            Some(pos) => if segs.last().sample_start == pos {
                Some(pos + segs.last().sample_count as nat)
            } else {
                None
            },
            None => None,
        }
    }
}

/// Sum of the sample delays.
pub open spec fn total_dt<J>(samples: Seq<TimedWaypoint<J>>) -> nat
    decreases samples.len(),
{
    if samples.len() == 0 {
        0
    } else {
        total_dt(samples.drop_last()) + samples.last().dt_us as nat
    }
}

/// Allowed timing drift: 1% of the declared duration, at least 1000 µs.
pub open spec fn timing_tolerance(declared: u64) -> nat {
    let p = (declared / 100) as nat;
    if p > 1000 {
        p
    } else {
        1000
    }
}

pub open spec fn abs_diff(a: nat, b: nat) -> nat {
    if a >= b {
        (a - b) as nat
    } else {
        (b - a) as nat
    }
}

pub open spec fn dof_ok<J>(m: ExecutionManifest<J>) -> bool {
    forall|i: int| 0 <= i < m.samples@.len() ==> (#[trigger] m.samples@[i]).joints@.len() == m.metadata.dof_count
}

pub open spec fn order_ok<J>(m: ExecutionManifest<J>) -> bool {
    forall|i: int| 0 <= i < m.segments@.len() - 1 ==> (#[trigger] m.segments@[i + 1]).index > m.segments@[i].index
}

/// The first structural rule broken by a manifest with these samples,
/// segments and metadata, in the firmware's order.
pub open spec fn structural_violation<J>(
    samples: Seq<TimedWaypoint<J>>,
    segs: Seq<ManifestSegment>,
    meta: ManifestMetadata,
) -> Option<ManifestViolation> {
    if samples.len() == 0 {
        Some(ManifestViolation::EmptyManifest)
    } else if exists|i: int| 0 <= i < samples.len() && (#[trigger] samples[i]).joints@.len() != meta.dof_count {
        Some(ManifestViolation::DofMismatch)
    } else if samples.len() != meta.total_samples {
        Some(ManifestViolation::WaypointCount)
    } else if exists|i: int| 0 <= i < segs.len() - 1 && (#[trigger] segs[i + 1]).index <= segs[i].index {
        Some(ManifestViolation::SegmentOrder)
    } else if !covers(segs, meta.total_samples as nat) {
        Some(ManifestViolation::SegmentCoverage)
    } else if abs_diff(total_dt(samples), meta.duration_us as nat) > timing_tolerance(
        meta.duration_us,
    ) {
        Some(ManifestViolation::TimingInvalid)
    } else {
        None
    }
}

/// The first structural rule `m` breaks, in the firmware's order.
pub open spec fn first_violation<J>(m: ExecutionManifest<J>) -> Option<ManifestViolation> {
    structural_violation(m.samples@, m.segments@, m.metadata)
}

/// Checks the structural firmware rules (non-empty, DOF, waypoint count,
/// segment order, segment coverage, timing) in the firmware's order and
/// reports the first one broken.
pub fn validate_structure<J>(manifest: &ExecutionManifest<J>) -> (r: Result<(), ManifestViolation>)
    ensures
        match first_violation(*manifest) {
            Some(v) => r == Err::<(), ManifestViolation>(v),
            None => r is Ok,
        },
{
    let samples = &manifest.samples;
    let segs = &manifest.segments;
    let n = samples.len();
    // 1. EMPTY_MANIFEST
    if n == 0 {
        return Err(ManifestViolation::EmptyManifest);
    }
    // 2. DOF_MISMATCH
    let mut i: usize = 0;
    while i < n
        invariant
            n == samples@.len(),
            *samples == manifest.samples,
            i <= n,
            forall|k: int| 0 <= k < i ==> (#[trigger] samples@[k]).joints@.len() == manifest.metadata.dof_count,
        decreases n - i,
    {
        if samples[i].joints.len() != manifest.metadata.dof_count {
            proof {
                assert(samples@[i as int].joints@.len() != manifest.metadata.dof_count);
            }
            return Err(ManifestViolation::DofMismatch);
        }
        i = i + 1;
    }
    // 3. WAYPOINT_COUNT
    if n != manifest.metadata.total_samples {
        return Err(ManifestViolation::WaypointCount);
    }
    // 4. SEGMENT_ORDER
    let ns = segs.len();
    let mut j: usize = 1;
    while j < ns
        invariant
            ns == segs@.len(),
            *segs == manifest.segments,
            *samples == manifest.samples,
            n == samples@.len(),
            n == manifest.metadata.total_samples,
            n > 0,
            1 <= j,
            j <= ns || ns == 0,
            forall|k: int| 0 <= k < j - 1 && k < ns - 1 ==> (#[trigger] segs@[k + 1]).index > segs@[k].index,
            dof_ok(*manifest),
        decreases ns - j,
    {
        if segs[j].index <= segs[j - 1].index {
            proof {
                let w = (j - 1) as int;
                assert(segs@[w + 1].index <= segs@[w].index);

            }
            return Err(ManifestViolation::SegmentOrder);
        }
        j = j + 1;
    }
    // 5. SEGMENT_COVERAGE
    let mut pos: usize = 0;
    let mut k: usize = 0;
    while k < ns
        invariant
            ns == segs@.len(),
            *segs == manifest.segments,
            *samples == manifest.samples,
            n == samples@.len(),
            n == manifest.metadata.total_samples,
            n > 0,
            k <= ns,
            coverage_end(segs@.take(k as int)) == Some(pos as nat),
            dof_ok(*manifest),
            order_ok(*manifest),
        decreases ns - k,
    {
        proof {
            assert(segs@.take(k as int + 1).drop_last() =~= segs@.take(k as int));
        }
        if segs[k].sample_start != pos {
            proof {
                lemma_coverage_broken(segs@, k as int + 1);
            }
            return Err(ManifestViolation::SegmentCoverage);
        }
        if segs[k].sample_count > usize::MAX - pos {
            proof {
                lemma_coverage_grows(segs@, k as int + 1);
            }
            return Err(ManifestViolation::SegmentCoverage);
        }
        pos = pos + segs[k].sample_count;
        k = k + 1;
    }
    proof {
        assert(segs@.take(ns as int) =~= segs@);
    }
    if pos != manifest.metadata.total_samples {
        return Err(ManifestViolation::SegmentCoverage);
    }
    // 6. TIMING_INVALID
    let mut acc: u128 = 0;
    let mut t: usize = 0;
    while t < n
        invariant
            n == samples@.len(),
            *samples == manifest.samples,
            t <= n,
            acc as nat == total_dt(samples@.take(t as int)),
            acc <= t * 0xffff_ffffu128,
            n <= usize::MAX,
        decreases n - t,
    {
        proof {
            assert(samples@.take(t as int + 1).drop_last() =~= samples@.take(t as int));
            assert(t * 0xffff_ffffu128 + 0xffff_ffffu128 <= usize::MAX as u128 * 0xffff_ffffu128
                + 0xffff_ffffu128) by (nonlinear_arith)
                requires
                    t < usize::MAX,
            ;
        }
        acc = acc + samples[t].dt_us as u128;
        t = t + 1;
    }
    proof {
        assert(samples@.take(n as int) =~= samples@);
    }
    let declared = manifest.metadata.duration_us;
    let tolerance: u64 = if declared / 100 > 1000 {
        declared / 100
    } else {
        1000
    };
    let diff: u128 = if acc >= declared as u128 {
        acc - declared as u128
    } else {
        declared as u128 - acc
    };
    if diff > tolerance as u128 {
        return Err(ManifestViolation::TimingInvalid);
    }
    Ok(())
}

proof fn lemma_coverage_broken(segs: Seq<ManifestSegment>, k: int)
    requires
        1 <= k <= segs.len(),
        coverage_end(segs.take(k)) is None,
    ensures
        coverage_end(segs) is None,
    decreases segs.len() - k,
{
    if k < segs.len() {
        assert(segs.drop_last().take(k) =~= segs.take(k));
        lemma_coverage_broken(segs.drop_last(), k);
    } else {
        assert(segs.take(k) =~= segs);
    }
}

proof fn lemma_coverage_grows(segs: Seq<ManifestSegment>, k: int)
    requires
        1 <= k <= segs.len(),
        coverage_end(segs.take(k)) matches Some(p) && p > usize::MAX,
    ensures
        coverage_end(segs) is None || (coverage_end(segs) matches Some(p) && p > usize::MAX),
    decreases segs.len() - k,
{
    if k < segs.len() {
        assert(segs.drop_last().take(k) =~= segs.take(k));
        lemma_coverage_grows(segs.drop_last(), k);
    } else {
        assert(segs.take(k) =~= segs);
    }
}

/// Law: a manifest that passes the structural rules has its segments laid
/// end to end over exactly its samples: segment `i` starts where segment
/// `i - 1` ends, the first starts at 0, and none reaches past the last
/// sample.
pub proof fn lemma_valid_segments_partition_samples<J>(m: ExecutionManifest<J>, i: int)
    requires
        first_violation(m) is None,
        0 <= i < m.segments@.len(),
    ensures
        m.segments@[i].sample_start + m.segments@[i].sample_count <= m.samples@.len(),
        i == 0 ==> m.segments@[i].sample_start == 0,
        i > 0 ==> m.segments@[i].sample_start == m.segments@[i - 1].sample_start + m.segments@[i
            - 1].sample_count,
{
    lemma_coverage_prefix(m.segments@, i + 1);
    lemma_coverage_monotone(m.segments@, i + 1);
}

/// Law: the segments of a manifest that passes the structural rules have
/// strictly ascending indices: an earlier segment always has a smaller
/// index than a later one.
pub proof fn lemma_valid_segment_indices_ascend<J>(m: ExecutionManifest<J>, i: int, j: int)
    requires
        first_violation(m) is None,
        0 <= i < j < m.segments@.len(),
    ensures
        m.segments@[i].index < m.segments@[j].index,
    decreases j - i,
{
    if j == i + 1 {
        if m.segments@[i + 1].index <= m.segments@[i].index {
            let segs = m.segments@;
            assert(0 <= i < segs.len() - 1 && segs[i + 1].index <= segs[i].index);
            assert(first_violation(m) is Some);
        }
    } else {
        lemma_valid_segment_indices_ascend(m, i, j - 1);
        lemma_valid_segment_indices_ascend(m, j - 1, j);
    }
}

/// Law: a manifest whose samples are present, of the declared joint count
/// and as many as declared, but whose segment indices fail to rise from one
/// segment to the next somewhere (equal or descending), breaks
/// `SEGMENT_ORDER`.
pub proof fn lemma_unordered_segments_refused<J>(m: ExecutionManifest<J>, k: int)
    requires
        m.samples@.len() > 0,
        forall|i: int|
            0 <= i < m.samples@.len() ==> (#[trigger] m.samples@[i]).joints@.len()
                == m.metadata.dof_count,
        m.samples@.len() == m.metadata.total_samples,
        0 <= k < m.segments@.len() - 1,
        m.segments@[k + 1].index <= m.segments@[k].index,
    ensures
        first_violation(m) == Some(ManifestViolation::SegmentOrder),
{
    let segs = m.segments@;
    assert(0 <= k < segs.len() - 1 && segs[k + 1].index <= segs[k].index);
}

proof fn lemma_coverage_prefix(segs: Seq<ManifestSegment>, k: int)
    requires
        1 <= k <= segs.len(),
        coverage_end(segs) is Some,
    ensures
        coverage_end(segs.take(k)) matches Some(e) && e == segs[k - 1].sample_start
            + segs[k - 1].sample_count,
        k >= 2 ==> coverage_end(segs.take(k - 1)) == Some(segs[k - 1].sample_start as nat),
        k == 1 ==> segs[0].sample_start == 0,
    decreases segs.len() - k,
{
    if k < segs.len() {
        lemma_coverage_prefix(segs.drop_last(), k);
        assert(segs.drop_last().take(k) =~= segs.take(k));
        if k >= 2 {
            assert(segs.drop_last().take(k - 1) =~= segs.take(k - 1));
        }
    } else {
        assert(segs.take(k) =~= segs);
        assert(segs.take(k - 1) =~= segs.drop_last());
        if k == 1 {
            assert(segs.drop_last() =~= Seq::<ManifestSegment>::empty());
        }
    }
}

proof fn lemma_coverage_monotone(segs: Seq<ManifestSegment>, k: int)
    requires
        0 <= k <= segs.len(),
        coverage_end(segs) is Some,
    ensures
        coverage_end(segs.take(k)) matches Some(e) && e <= coverage_end(segs)->0,
    decreases segs.len() - k,
{
    if k < segs.len() {
        lemma_coverage_monotone(segs.drop_last(), k);
        assert(segs.drop_last().take(k) =~= segs.take(k));
    } else {
        assert(segs.take(k) =~= segs);
    }
}

} // verus!

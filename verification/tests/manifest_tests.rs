use thalos_runtime::manifest::{
    validate_structure, ExecutionManifest, ManifestInstruction, ManifestMetadata, ManifestSegment,
    ManifestViolation, TimedWaypoint,
};
use thalos_runtime::manifest_builder::{
    degenerate_manifest, needs_degenerate_manifest, BuilderError, ExecutionManifestBuilder,
    ExecutionPlanSteps, SegmentSpan, WaypointStep,
};

fn adv(joints: &[f64], dt_us: u32) -> WaypointStep<f64> {
    WaypointStep::Advance { joints: joints.to_vec(), dt_us }
}

fn span(index: usize, instruction: ManifestInstruction, start: usize, end: usize) -> SegmentSpan {
    SegmentSpan { planned_segment_index: index, instruction, waypoint_start: start, waypoint_end: end }
}

fn plan(
    steps: Vec<WaypointStep<f64>>,
    segments: Vec<SegmentSpan>,
    duration_us: u64,
) -> ExecutionPlanSteps<f64> {
    ExecutionPlanSteps { steps, segments, duration_us, repeat_count: 1 }
}

/// Waypoints at 0.0, 0.5 and 1.0 s: a MoveJ then a MoveL.
fn two_segment_manifest() -> ExecutionManifest<f64> {
    let p = plan(
        vec![adv(&[0.0, 0.0], 0), adv(&[0.5, 0.5], 500_000), adv(&[1.0, 1.0], 500_000)],
        vec![
            span(0, ManifestInstruction::MoveJ, 0, 2),
            span(1, ManifestInstruction::MoveL, 2, 3),
        ],
        1_000_000,
    );
    ExecutionManifestBuilder::build(p).expect("valid fixture")
}

fn assert_validation_code(manifest: &ExecutionManifest<f64>, expected: &str) {
    match ExecutionManifestBuilder::validate(manifest) {
        Err(BuilderError::Validation(v)) => assert_eq!(v.code(), expected, "validation code mismatch"),
        other => panic!("expected Validation({expected}), got {other:?}"),
    }
}

#[test]
fn absolute_to_delta_conversion() {
    let p = plan(
        vec![adv(&[0.0, 0.0], 0), adv(&[0.5, 0.5], 500_000), adv(&[1.0, 1.0], 500_000)],
        vec![span(0, ManifestInstruction::MoveJ, 0, 3)],
        1_000_000,
    );
    let manifest = ExecutionManifestBuilder::build(p).expect("build should succeed");
    let dt: Vec<u32> = manifest.samples.iter().map(|s| s.dt_us).collect();
    assert_eq!(dt, vec![0, 500_000, 500_000]);
    assert_eq!(manifest.metadata.total_samples, 3);
    assert_eq!(manifest.metadata.dof_count, 2);
}

#[test]
fn duplicate_timestamp_and_position_is_collapsed() {
    let p = plan(
        vec![adv(&[0.1, 0.2], 0), WaypointStep::Repeat, adv(&[0.3, 0.4], 1_000_000)],
        vec![span(0, ManifestInstruction::MoveJ, 0, 3)],
        1_000_000,
    );
    let manifest = ExecutionManifestBuilder::build(p).expect("build should succeed");
    assert_eq!(manifest.samples.len(), 2, "one fewer sample than the plan");
    assert_eq!(manifest.metadata.total_samples, 2);
    assert_eq!(manifest.samples[0].joints, vec![0.1, 0.2]);
    assert_eq!(manifest.samples[0].dt_us, 0);
    assert_eq!(manifest.samples[1].joints, vec![0.3, 0.4]);
    assert_eq!(manifest.samples[1].dt_us, 1_000_000);
}

#[test]
fn manifest_segment_uses_planned_segment_provenance() {
    let p = plan(
        vec![
            adv(&[0.0, 0.0], 0),
            WaypointStep::Repeat,
            adv(&[0.5, 0.5], 500_000),
            adv(&[1.0, 1.0], 500_000),
            adv(&[1.5, 1.5], 500_000),
        ],
        vec![
            span(0, ManifestInstruction::MoveJ, 0, 2),
            span(1, ManifestInstruction::MoveL, 2, 4),
            span(2, ManifestInstruction::MoveJ, 4, 5),
        ],
        1_500_000,
    );
    let manifest = ExecutionManifestBuilder::build(p).expect("build should succeed");
    assert_eq!(manifest.segments.len(), 3);
    let provenance: Vec<usize> = manifest.segments.iter().map(|s| s.index).collect();
    assert_eq!(provenance, vec![0, 1, 2]);
    assert_eq!(manifest.segments[0].instruction, ManifestInstruction::MoveJ);
    assert_eq!(manifest.segments[1].instruction, ManifestInstruction::MoveL);
    assert_eq!(manifest.segments[2].instruction, ManifestInstruction::MoveJ);
    assert_eq!(manifest.segments[0].sample_start, 0);
    assert_eq!(manifest.segments[0].sample_count, 1);
    assert_eq!(manifest.segments[1].sample_start, 1);
    assert_eq!(manifest.segments[1].sample_count, 2);
    assert_eq!(manifest.segments[2].sample_start, 3);
    assert_eq!(manifest.segments[2].sample_count, 1);
    assert_eq!(manifest.metadata.total_samples, 4);
}

#[test]
fn duplicate_timestamp_with_different_position_is_error() {
    let p = plan(
        vec![adv(&[0.1, 0.2], 0), WaypointStep::Conflict, adv(&[0.3, 0.4], 1_000_000)],
        vec![span(0, ManifestInstruction::MoveJ, 0, 3)],
        1_000_000,
    );
    let err = ExecutionManifestBuilder::build(p).expect_err("build must fail");
    assert_eq!(err, BuilderError::DedupConflict { index: 1 });
}

#[test]
fn first_conflict_is_reported() {
    let p = plan(
        vec![adv(&[0.0], 0), adv(&[0.1], 10), WaypointStep::Conflict, WaypointStep::Conflict],
        vec![span(0, ManifestInstruction::MoveJ, 0, 4)],
        10,
    );
    assert_eq!(ExecutionManifestBuilder::build(p), Err(BuilderError::DedupConflict { index: 2 }));
}

#[test]
fn empty_manifest_rejected() {
    let p = plan(vec![], vec![], 0);
    let err = ExecutionManifestBuilder::build(p).expect_err("build must fail");
    assert!(matches!(err, BuilderError::Validation(v) if v.code() == "EMPTY_MANIFEST"));
}

#[test]
fn dof_mismatch_rejected() {
    let p = plan(
        vec![adv(&[0.0, 0.0], 0), adv(&[0.5, 0.5, 0.5], 500_000)],
        vec![span(0, ManifestInstruction::MoveJ, 0, 2)],
        500_000,
    );
    let err = ExecutionManifestBuilder::build(p).expect_err("build must fail");
    assert!(matches!(err, BuilderError::Validation(v) if v.code() == "DOF_MISMATCH"));
}

#[test]
fn waypoint_count_mismatch_rejected() {
    let mut m = two_segment_manifest();
    m.metadata.total_samples = 5;
    assert_validation_code(&m, "WAYPOINT_COUNT");
}

#[test]
fn segment_order_mismatch_rejected() {
    let mut m = two_segment_manifest();
    m.segments[1].index = 0;
    assert_validation_code(&m, "SEGMENT_ORDER");
}

#[test]
fn segment_coverage_gap_rejected() {
    let mut m = two_segment_manifest();
    m.segments[1].sample_start = 3;
    assert_validation_code(&m, "SEGMENT_COVERAGE");
}

#[test]
fn segment_coverage_overlap_rejected() {
    let mut m = two_segment_manifest();
    m.segments[1].sample_start = 1;
    assert_validation_code(&m, "SEGMENT_COVERAGE");
}

#[test]
fn timing_tolerance_within_one_percent() {
    let p = plan(
        vec![adv(&[0.0, 0.0], 0), adv(&[0.5, 0.5], 995_000), adv(&[1.0, 1.0], 995_000)],
        vec![span(0, ManifestInstruction::MoveJ, 0, 3)],
        2_000_000,
    );
    let manifest = ExecutionManifestBuilder::build(p).expect("0.5% drift must pass");
    let accumulated: u64 = manifest.samples.iter().map(|s| s.dt_us as u64).sum();
    assert_eq!(accumulated, 1_990_000);
    assert_eq!(manifest.metadata.duration_us, 2_000_000);
    assert_eq!(manifest.metadata.duration_us.abs_diff(accumulated), 2_000_000 / 200);
}

#[test]
fn timing_outside_tolerance_rejected() {
    let p = plan(
        vec![adv(&[0.0, 0.0], 0), adv(&[0.5, 0.5], 975_000), adv(&[1.0, 1.0], 975_000)],
        vec![span(0, ManifestInstruction::MoveJ, 0, 3)],
        2_000_000,
    );
    let err = ExecutionManifestBuilder::build(p).expect_err("2.5% drift must fail");
    assert!(matches!(err, BuilderError::Validation(v) if v.code() == "TIMING_INVALID"));
}

#[test]
fn timing_min_tolerance_floor_applied() {
    let p = plan(
        vec![adv(&[0.0, 0.0], 0), adv(&[0.02, 0.02], 24_700), adv(&[0.04, 0.04], 24_700)],
        vec![span(0, ManifestInstruction::MoveJ, 0, 3)],
        50_000,
    );
    let manifest = ExecutionManifestBuilder::build(p).expect("floor tolerance must pass");
    let accumulated: u64 = manifest.samples.iter().map(|s| s.dt_us as u64).sum();
    let drift = manifest.metadata.duration_us.abs_diff(accumulated);
    assert_eq!(drift, 600);
    assert_eq!(manifest.metadata.duration_us / 100, 500, "1% allowance < floor");
}

#[test]
fn boundary_repeat_keeps_segments_disjoint() {
    // The waypoint opening the second segment repeats the last one of the
    // first: it collapses into the first segment's last sample, and the
    // second segment starts after it.
    let p = plan(
        vec![adv(&[0.0], 0), adv(&[1.0], 100), WaypointStep::Repeat, adv(&[2.0], 100)],
        vec![span(0, ManifestInstruction::MoveJ, 0, 2), span(1, ManifestInstruction::MoveL, 2, 4)],
        200,
    );
    let m = ExecutionManifestBuilder::build(p).expect("valid");
    assert_eq!(m.segments[0].sample_start, 0);
    assert_eq!(m.segments[0].sample_count, 2);
    assert_eq!(m.segments[1].sample_start, 2);
    assert_eq!(m.segments[1].sample_count, 1);
}

#[test]
fn repeat_count_and_duration_carried_into_metadata() {
    let p = ExecutionPlanSteps {
        steps: vec![adv(&[0.0, 1.0, 2.0], 0), adv(&[0.5, 1.0, 2.0], 1000)],
        segments: vec![span(7, ManifestInstruction::MoveJ, 0, 2)],
        duration_us: 1000,
        repeat_count: 4,
    };
    let m = ExecutionManifestBuilder::build(p).unwrap();
    assert_eq!(
        m.metadata,
        ManifestMetadata { dof_count: 3, total_samples: 2, duration_us: 1000, repeat_count: 4 }
    );
    assert_eq!(m.segments[0].index, 7);
}

#[test]
fn degenerate_guard_threshold() {
    assert!(needs_degenerate_manifest(3, 1));
    assert!(!needs_degenerate_manifest(3, 2));
    assert!(!needs_degenerate_manifest(1, 0));
    assert!(!needs_degenerate_manifest(0, 0));
}

#[test]
fn degenerate_manifest_has_zero_timing_and_passes_validation() {
    let m = degenerate_manifest(vec![vec![0.0, 0.0], vec![0.1, 0.1], vec![0.2, 0.2]], 2);
    assert_eq!(m.samples.len(), 3);
    assert!(m.samples.iter().all(|s| s.dt_us == 0));
    assert_eq!(m.samples[2].joints, vec![0.2, 0.2]);
    assert_eq!(
        m.segments,
        vec![ManifestSegment {
            index: 0,
            instruction: ManifestInstruction::MoveJ,
            sample_start: 0,
            sample_count: 3
        }]
    );
    assert_eq!(
        m.metadata,
        ManifestMetadata { dof_count: 2, total_samples: 3, duration_us: 0, repeat_count: 2 }
    );
    assert_eq!(validate_structure(&m), Ok(()));
}

#[test]
fn violation_codes_match_firmware() {
    assert_eq!(ManifestViolation::EmptyManifest.code(), "EMPTY_MANIFEST");
    assert_eq!(ManifestViolation::DofMismatch.code(), "DOF_MISMATCH");
    assert_eq!(ManifestViolation::WaypointCount.code(), "WAYPOINT_COUNT");
    assert_eq!(ManifestViolation::SegmentOrder.code(), "SEGMENT_ORDER");
    assert_eq!(ManifestViolation::SegmentCoverage.code(), "SEGMENT_COVERAGE");
    assert_eq!(ManifestViolation::TimingInvalid.code(), "TIMING_INVALID");
}

#[test]
fn structural_rules_checked_in_firmware_order() {
    // Both the waypoint count and the coverage are wrong: the count rule
    // comes first.
    let m = ExecutionManifest {
        metadata: ManifestMetadata { dof_count: 1, total_samples: 9, duration_us: 0, repeat_count: 1 },
        segments: vec![],
        samples: vec![TimedWaypoint { joints: vec![0u8], dt_us: 0 }],
    };
    assert_eq!(validate_structure(&m), Err(ManifestViolation::WaypointCount));
}

#[test]
fn execution_sample_roundtrip() {
    let sample = thalos_runtime::manifest::ExecutionSample {
        timestamp_us: 1_234_567,
        joints: vec![0.5, -0.3, 0.0, 1.0, 0.2, -0.1],
    };
    assert_eq!(sample.timestamp_us, 1_234_567);
    assert_eq!(sample.joints.len(), 6);
    assert!((sample.joints[0] - 0.5f64).abs() < 1e-12);
    assert!((sample.joints[3] - 1.0f64).abs() < 1e-12);
}

#[test]
fn execution_sample_zero_timestamp() {
    let sample: thalos_runtime::manifest::ExecutionSample<f64> =
        thalos_runtime::manifest::ExecutionSample { timestamp_us: 0, joints: vec![] };
    assert_eq!(sample.timestamp_us, 0);
    assert!(sample.joints.is_empty());
}

#[test]
fn envelope_rule_codes() {
    assert_eq!(ManifestViolation::InvalidJoint.code(), "INVALID_JOINT");
    assert_eq!(ManifestViolation::VelocityExceeded.code(), "VELOCITY_EXCEEDED");
}

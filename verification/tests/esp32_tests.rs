use thalos_runtime::esp32::{
    expect_ack, expect_ready, is_not_idle_refusal, motion_mode_of, samples_to_collect,
    upload_steps, Esp32Link, FirmwareState, HandshakeVerdict, MotionMode, PollHealth, Reply,
    UploadStep, HANDSHAKE_ATTEMPTS, POLL_FAILURE_LIMIT, handshake_next, retry_upload,
    HandshakeNext,
};
use thalos_runtime::manifest::{
    ExecutionManifest, ManifestInstruction, ManifestMetadata, ManifestSegment, TimedWaypoint,
};
use thalos_runtime::protocol::{encode_manifest, parse_response, upload_chunk_size, ParsedResponse};

fn manifest_with(dof: usize, n: usize) -> ExecutionManifest<Vec<u8>> {
    let samples = (0..n)
        .map(|i| TimedWaypoint { joints: vec![format!("{}.0", i).into_bytes(); dof], dt_us: 1000 })
        .collect();
    ExecutionManifest {
        metadata: ManifestMetadata {
            dof_count: dof,
            total_samples: n,
            duration_us: 1000 * n as u64,
            repeat_count: 1,
        },
        segments: vec![ManifestSegment {
            index: 0,
            instruction: ManifestInstruction::MoveJ,
            sample_start: 0,
            sample_count: n,
        }],
        samples,
    }
}

#[test]
fn upload_batches_samples_per_chunk() {
    // 6 joints: 38 sample lines per acknowledged chunk.
    let m = manifest_with(6, 80);
    assert_eq!(upload_chunk_size(6), 38);
    let lines = encode_manifest(&m, 38);
    let steps = upload_steps(&m);
    // header + 1 segment, 2 full chunks, 1 tail of 4, END_UPLOAD.
    assert_eq!(steps.len(), 2 + 2 + 1 + 1);
    assert_eq!(steps[0], UploadStep::Command(lines[0].clone()));
    assert_eq!(steps[1], UploadStep::Command(lines[1].clone()));
    let first_chunk: Vec<u8> = lines[2..40].concat();
    assert_eq!(steps[2], UploadStep::Chunk(first_chunk));
    let second_chunk: Vec<u8> = lines[40..78].concat();
    assert_eq!(steps[3], UploadStep::Chunk(second_chunk));
    let tail: Vec<u8> = lines[78..82].concat();
    assert_eq!(steps[4], UploadStep::Tail(tail));
    assert_eq!(steps[5], UploadStep::Finish(b"END_UPLOAD\n".to_vec()));
}

#[test]
fn upload_with_exact_chunks_has_no_tail() {
    let m = manifest_with(6, 76);
    let steps = upload_steps(&m);
    assert_eq!(steps.len(), 2 + 2 + 1);
    assert!(matches!(steps[3], UploadStep::Chunk(_)));
    assert!(matches!(steps[4], UploadStep::Finish(_)));
}

#[test]
fn upload_of_empty_manifest_is_header_and_end() {
    let m: ExecutionManifest<Vec<u8>> = ExecutionManifest {
        metadata: ManifestMetadata { dof_count: 0, total_samples: 0, duration_us: 0, repeat_count: 1 },
        segments: vec![],
        samples: vec![],
    };
    let steps = upload_steps(&m);
    assert_eq!(
        steps,
        vec![
            UploadStep::Command(b"MANIFEST 0 0 0 64 1\n".to_vec()),
            UploadStep::Finish(b"END_UPLOAD\n".to_vec()),
        ]
    );
}

#[test]
fn replies_are_judged() {
    assert_eq!(expect_ack(ParsedResponse::Ack), Reply::Accepted);
    assert_eq!(expect_ack(ParsedResponse::Error(b"NOT_IDLE".to_vec())), Reply::Refused(b"NOT_IDLE".to_vec()));
    assert_eq!(expect_ack(ParsedResponse::Ready), Reply::Unexpected(ParsedResponse::Ready));
    assert_eq!(expect_ready(ParsedResponse::Ready), Reply::Accepted);
    assert_eq!(expect_ready(ParsedResponse::Ack), Reply::Unexpected(ParsedResponse::Ack));
}

#[test]
fn handshake_checks_version() {
    let mut link = Esp32Link::new(2);
    assert!(!link.is_connected());
    assert_eq!(HANDSHAKE_ATTEMPTS, 2);
    assert_eq!(
        link.on_hello_reply(parse_response("HELLO 1 OK\n").unwrap()),
        HandshakeVerdict::VersionMismatch { expected: 2, actual: 1 }
    );
    assert!(!link.is_connected());
    assert_eq!(
        link.on_hello_reply(ParsedResponse::Ack),
        HandshakeVerdict::Unanswered(ParsedResponse::Ack)
    );
    assert_eq!(link.on_hello_reply(parse_response("HELLO 2 OK\n").unwrap()), HandshakeVerdict::Accepted(2));
    assert!(link.is_connected());
    assert_eq!(link.firmware_version(), 2);
    assert_eq!(link.expected_version(), 2);
}

#[test]
fn link_tracks_firmware_state() {
    let mut link = Esp32Link::new(2);
    link.begin_upload();
    assert_eq!(link.on_upload_finished(ParsedResponse::Ready), Reply::Accepted);
    assert_eq!(link.on_execute_reply(ParsedResponse::Ack), Reply::Accepted);
    let running = link.on_status_reply(parse_response("STATUS RUNNING 0.5 1.0\n").unwrap()).unwrap();
    match running {
        FirmwareState::Executing { progress, joints } => {
            assert_eq!(progress, Some(b"0.5".to_vec()));
            assert_eq!(joints, vec![b"1.0".to_vec()]);
        }
        other => panic!("expected Executing, got {other:?}"),
    }
    assert_eq!(
        link.on_status_reply(ParsedResponse::StatusCompleted { sample_count: 3 }),
        Ok(FirmwareState::Completed { sample_count: 3 })
    );
    assert_eq!(
        link.on_status_reply(ParsedResponse::Error(b"MOTOR_FAULT".to_vec())),
        Ok(FirmwareState::Error(b"MOTOR_FAULT".to_vec()))
    );
    assert_eq!(link.on_status_reply(ParsedResponse::Ack), Err(ParsedResponse::Ack));
    link.on_stop();
}

#[test]
fn not_idle_refusal_ignores_surrounding_whitespace() {
    assert!(is_not_idle_refusal(b"NOT_IDLE"));
    assert!(is_not_idle_refusal(b"  NOT_IDLE \n"));
    assert!(is_not_idle_refusal("\u{a0}NOT_IDLE\u{3000}".as_bytes()));
    assert!(!is_not_idle_refusal("NOT\u{a0}IDLE".as_bytes()));
    assert!(!is_not_idle_refusal(b"NOT_IDLE_YET"));
    assert!(!is_not_idle_refusal(b"NOT IDLE"));
    assert!(!is_not_idle_refusal(b""));
}

#[test]
fn three_failed_polls_drop_the_connection() {
    let mut h = PollHealth::new();
    h.on_connected();
    assert_eq!(POLL_FAILURE_LIMIT, 3);
    assert_eq!(h.on_poll_failure(), 1);
    assert_eq!(h.on_poll_failure(), 2);
    assert!(h.is_connected());
    h.on_poll_success();
    assert_eq!(h.on_poll_failure(), 1);
    assert_eq!(h.on_poll_failure(), 2);
    assert_eq!(h.on_poll_failure(), 3);
    assert!(!h.is_connected());
    h.on_connected();
    assert!(h.is_connected());
    h.on_disconnected();
    assert!(!h.is_connected());
}

#[test]
fn firmware_states_map_to_motion_modes() {
    assert_eq!(motion_mode_of(&FirmwareState::Idle), MotionMode::Idle);
    assert_eq!(motion_mode_of(&FirmwareState::Receiving), MotionMode::Idle);
    assert_eq!(motion_mode_of(&FirmwareState::Ready), MotionMode::Idle);
    let running = FirmwareState::Executing { progress: Some(b"0.5".to_vec()), joints: vec![] };
    assert_eq!(motion_mode_of(&running), MotionMode::Moving);
    assert_eq!(motion_mode_of(&FirmwareState::Completed { sample_count: 3 }), MotionMode::Idle);
    assert_eq!(motion_mode_of(&FirmwareState::Error(b"E".to_vec())), MotionMode::EStop);
}

#[test]
fn only_completed_runs_with_samples_are_collected() {
    assert_eq!(samples_to_collect(&FirmwareState::Completed { sample_count: 5 }), Some(5));
    assert_eq!(samples_to_collect(&FirmwareState::Completed { sample_count: 0 }), None);
    assert_eq!(samples_to_collect(&FirmwareState::Idle), None);
    let running = FirmwareState::Executing { progress: None, joints: vec![] };
    assert_eq!(samples_to_collect(&running), None);
}

#[test]
fn handshake_sends_hello_once_more_after_an_unanswered_reply() {
    let stale = HandshakeVerdict::Unanswered(ParsedResponse::Ack);
    assert_eq!(handshake_next(1, Some(&stale)), HandshakeNext::SendAgain);
    assert_eq!(handshake_next(1, None), HandshakeNext::SendAgain);
    assert_eq!(handshake_next(HANDSHAKE_ATTEMPTS, Some(&stale)), HandshakeNext::GiveUp);
    assert_eq!(handshake_next(HANDSHAKE_ATTEMPTS, None), HandshakeNext::GiveUp);
}

#[test]
fn handshake_ends_on_an_answer() {
    assert_eq!(handshake_next(1, Some(&HandshakeVerdict::Accepted(2))), HandshakeNext::Connected);
    assert_eq!(
        handshake_next(2, Some(&HandshakeVerdict::VersionMismatch { expected: 1, actual: 2 })),
        HandshakeNext::Refused { expected: 1, actual: 2 }
    );
}

#[test]
fn upload_retried_once_on_not_idle_only() {
    assert!(retry_upload(true, Some(b"NOT_IDLE".as_slice())));
    assert!(retry_upload(true, Some(b" NOT_IDLE ".as_slice())));
    assert!(!retry_upload(false, Some(b"NOT_IDLE".as_slice())));
    assert!(!retry_upload(true, Some(b"BAD_SEGMENT".as_slice())));
    assert!(!retry_upload(true, None));
}

use thalos_runtime::manifest::{
    ExecutionManifest, ManifestInstruction, ManifestMetadata, ManifestSegment, TimedWaypoint,
};
use thalos_runtime::protocol::{
    cap_sample_count, encode_manifest, format_line, format_sample_line, parse_response,
    upload_chunk_size, ParsedResponse, ProtocolError, MAX_SAMPLES,
};
use thalos_runtime::magnitude::finite_real_text;
use thalos_runtime::wire::{encode_decimal, parse_unsigned_literal, real_text, split_tokens};

/// Joint positions rendered the way the driver renders them.
fn render(joints: &[f64]) -> Vec<Vec<u8>> {
    joints.iter().map(|j| format!("{:.6}", j).into_bytes()).collect()
}

fn as_real(b: &[u8]) -> f64 {
    std::str::from_utf8(b).unwrap().parse::<f64>().unwrap()
}

fn as_reals(v: &[Vec<u8>]) -> Vec<f64> {
    v.iter().map(|b| as_real(b)).collect()
}

fn text(b: &[u8]) -> String {
    String::from_utf8(b.to_vec()).unwrap()
}

fn wp(joints: &[f64], dt_us: u32) -> TimedWaypoint<Vec<u8>> {
    TimedWaypoint { joints: render(joints), dt_us }
}

fn sample_manifest() -> ExecutionManifest<Vec<u8>> {
    ExecutionManifest {
        metadata: ManifestMetadata {
            dof_count: 2,
            total_samples: 3,
            duration_us: 1_000_000,
            repeat_count: 1,
        },
        segments: vec![ManifestSegment {
            index: 0,
            instruction: ManifestInstruction::MoveJ,
            sample_start: 0,
            sample_count: 3,
        }],
        samples: vec![wp(&[0.0, 0.0], 0), wp(&[0.5, 0.3], 500_000), wp(&[1.0, 0.5], 500_000)],
    }
}

fn multi_segment_manifest() -> ExecutionManifest<Vec<u8>> {
    ExecutionManifest {
        metadata: ManifestMetadata {
            dof_count: 3,
            total_samples: 5,
            duration_us: 2_000_000,
            repeat_count: 1,
        },
        segments: vec![
            ManifestSegment {
                index: 0,
                instruction: ManifestInstruction::MoveJ,
                sample_start: 0,
                sample_count: 2,
            },
            ManifestSegment {
                index: 1,
                instruction: ManifestInstruction::MoveL,
                sample_start: 2,
                sample_count: 3,
            },
        ],
        samples: vec![
            wp(&[0.0, 0.0, 0.0], 0),
            wp(&[0.2, 0.1, 0.0], 500_000),
            wp(&[0.2, 0.1, 0.0], 0),
            wp(&[0.5, 0.4, 0.3], 500_000),
            wp(&[0.8, 0.6, 0.5], 1_000_000),
        ],
    }
}

#[test]
fn encode_single_segment_manifest() {
    let manifest = sample_manifest();
    let lines = encode_manifest(&manifest, 64);
    assert_eq!(lines.len(), 6);
    assert_eq!(text(&lines[0]), "MANIFEST 2 3 1000000 64 1\n");
    assert_eq!(text(&lines[1]), "SEGMENT 0 movej 0 3\n");
    assert!(text(&lines[2]).starts_with("SAMPLE"));
    assert!(text(&lines[3]).starts_with("SAMPLE"));
    assert!(text(&lines[4]).starts_with("SAMPLE"));
    assert_eq!(text(&lines[5]), "END_UPLOAD\n");
}

#[test]
fn encode_multi_segment_manifest() {
    let manifest = multi_segment_manifest();
    let lines = encode_manifest(&manifest, 62);
    assert_eq!(lines.len(), 9);
    assert_eq!(text(&lines[0]), "MANIFEST 3 5 2000000 62 1\n");
    assert_eq!(text(&lines[1]), "SEGMENT 0 movej 0 2\n");
    assert_eq!(text(&lines[2]), "SEGMENT 1 movel 2 3\n");
    assert_eq!(text(&lines[8]), "END_UPLOAD\n");
}

#[test]
fn encode_sample_lines_include_joints_and_dt() {
    let manifest = sample_manifest();
    let lines = encode_manifest(&manifest, 64);
    let sample0 = text(&lines[2]);
    assert!(sample0.starts_with("SAMPLE "));
    assert!(sample0.ends_with("0\n"));
    let sample1 = text(&lines[3]);
    assert!(sample1.starts_with("SAMPLE "));
    assert!(sample1.ends_with("500000\n"));
    assert_eq!(sample1, "SAMPLE 0.500000 0.300000 500000\n");
}

#[test]
fn encode_empty_manifest_still_produces_manifest_line() {
    let manifest: ExecutionManifest<Vec<u8>> = ExecutionManifest {
        metadata: ManifestMetadata { dof_count: 0, total_samples: 0, duration_us: 0, repeat_count: 1 },
        segments: vec![],
        samples: vec![],
    };
    let lines = encode_manifest(&manifest, 64);
    assert_eq!(lines.len(), 2);
    assert_eq!(text(&lines[0]), "MANIFEST 0 0 0 64 1\n");
    assert_eq!(text(&lines[1]), "END_UPLOAD\n");
}

#[test]
fn parse_sample_line_with_two_joints() {
    match parse_response("SAMPLE 1000 0.0 0.5\n").unwrap() {
        ParsedResponse::Sample(sample) => {
            assert_eq!(sample.timestamp_us, 1000);
            assert_eq!(sample.joints.len(), 2);
            assert!((as_real(&sample.joints[0]) - 0.0).abs() < 1e-9);
            assert!((as_real(&sample.joints[1]) - 0.5).abs() < 1e-9);
        }
        other => panic!("Expected Sample, got {other:?}"),
    }
}

#[test]
fn parse_sample_line_with_six_joints() {
    match parse_response("SAMPLE 5000000 0.1 0.2 0.3 0.4 0.5 0.6\n").unwrap() {
        ParsedResponse::Sample(sample) => {
            assert_eq!(sample.timestamp_us, 5_000_000);
            assert_eq!(sample.joints.len(), 6);
            assert!((as_real(&sample.joints[0]) - 0.1).abs() < 1e-9);
            assert!((as_real(&sample.joints[5]) - 0.6).abs() < 1e-9);
        }
        other => panic!("Expected Sample, got {other:?}"),
    }
}

#[test]
fn parse_sample_ts_first_spec_scenario() {
    match parse_response("SAMPLE 1000000 0.5 0.3 0.1 -0.1 0.0 0.0\n").unwrap() {
        ParsedResponse::Sample(sample) => {
            assert_eq!(sample.timestamp_us, 1_000_000);
            assert_eq!(as_reals(&sample.joints), vec![0.5, 0.3, 0.1, -0.1, 0.0, 0.0]);
        }
        other => panic!("Expected Sample, got {other:?}"),
    }
}

#[test]
fn parse_sample_line_zero_timestamp() {
    match parse_response("SAMPLE 0 1.0 2.0\n").unwrap() {
        ParsedResponse::Sample(sample) => {
            assert_eq!(sample.timestamp_us, 0);
            assert_eq!(as_reals(&sample.joints), vec![1.0, 2.0]);
        }
        other => panic!("Expected Sample, got {other:?}"),
    }
}

#[test]
fn parse_sample_line_malformed_rejected() {
    match parse_response("SAMPLE abc 1000\n") {
        Err(ProtocolError::MalformedResponse(_)) => {}
        other => panic!("Expected MalformedResponse, got {other:?}"),
    }
}

#[test]
fn parse_sample_line_too_short_rejected() {
    assert!(parse_response("SAMPLE\n").is_err());
}

#[test]
fn parse_ok_response() {
    assert_eq!(parse_response("OK\n").unwrap(), ParsedResponse::Ack);
}

#[test]
fn parse_ready_response() {
    assert_eq!(parse_response("READY\n").unwrap(), ParsedResponse::Ready);
}

#[test]
fn parse_handshake_ok() {
    assert_eq!(parse_response("HELLO 1 OK\n").unwrap(), ParsedResponse::HandshakeOk(1));
}

#[test]
fn parse_error_response() {
    match parse_response("ERROR DOF_MISMATCH\n").unwrap() {
        ParsedResponse::Error(reason) => assert_eq!(text(&reason), "DOF_MISMATCH"),
        other => panic!("Expected Error, got {other:?}"),
    }
}

#[test]
fn parse_status_running() {
    match parse_response("STATUS RUNNING 0.45 0.5 0.3 0.1 -0.1 0.0 0.0\n").unwrap() {
        ParsedResponse::StatusRunning { progress, joints } => {
            assert!((as_real(&progress.unwrap()) - 0.45).abs() < 1e-9);
            assert_eq!(as_reals(&joints), vec![0.5, 0.3, 0.1, -0.1, 0.0, 0.0]);
        }
        other => panic!("Expected StatusRunning, got {other:?}"),
    }
}

#[test]
fn parse_status_completed() {
    match parse_response("STATUS COMPLETED 5\n").unwrap() {
        ParsedResponse::StatusCompleted { sample_count } => assert_eq!(sample_count, 5),
        other => panic!("Expected StatusCompleted, got {other:?}"),
    }
}

#[test]
fn parse_status_idle() {
    assert_eq!(parse_response("STATUS IDLE\n").unwrap(), ParsedResponse::StatusIdle);
}

#[test]
fn parse_status_receiving() {
    assert_eq!(parse_response("STATUS RECEIVING\n").unwrap(), ParsedResponse::StatusReceiving);
}

#[test]
fn parse_status_ready() {
    assert_eq!(parse_response("STATUS READY\n").unwrap(), ParsedResponse::StatusReady);
}

#[test]
fn parse_status_error_with_reason() {
    match parse_response("STATUS ERROR MOTOR_FAULT\n").unwrap() {
        ParsedResponse::Error(reason) => assert_eq!(text(&reason), "MOTOR_FAULT"),
        other => panic!("Expected Error, got {other:?}"),
    }
}

#[test]
fn parse_status_running_bare_token_is_lenient() {
    match parse_response("STATUS RUNNING\n").unwrap() {
        ParsedResponse::StatusRunning { progress, joints } => {
            // No progress reported: the driver reads it as 0.0.
            assert_eq!(progress.map(|p| as_real(&p)).unwrap_or(0.0), 0.0);
            assert!(joints.is_empty());
        }
        other => panic!("Expected StatusRunning, got {other:?}"),
    }
}

#[test]
fn parse_status_completed_bare_token_is_lenient() {
    match parse_response("STATUS COMPLETED\n").unwrap() {
        ParsedResponse::StatusCompleted { sample_count } => assert_eq!(sample_count, 0),
        other => panic!("Expected StatusCompleted, got {other:?}"),
    }
}

#[test]
fn parse_status_running_rejects_non_finite_progress() {
    for line in ["STATUS RUNNING nan 0 0\n", "STATUS RUNNING inf 0 0\n", "STATUS RUNNING 1e999 0 0\n"] {
        let result = parse_response(line);
        assert!(
            matches!(result, Err(ProtocolError::MalformedResponse(_))),
            "{line:?} must be MalformedResponse, got {result:?}"
        );
    }
}

#[test]
fn parse_status_unknown_token_is_malformed_not_error() {
    let result = parse_response("STATUS FOO\n");
    assert!(
        matches!(result, Err(ProtocolError::MalformedResponse(_))),
        "STATUS FOO must be MalformedResponse, got {result:?}"
    );
}

#[test]
fn collect_samples_caps_firmware_supplied_count() {
    let bogus = u32::MAX as usize;
    assert_eq!(cap_sample_count(bogus), MAX_SAMPLES, "bogus count must be capped to MAX_SAMPLES");
    assert_eq!(cap_sample_count(5), 5, "small counts pass through");
}

#[test]
fn parse_unknown_command_response() {
    match parse_response("BOGUS\n") {
        Err(ProtocolError::UnexpectedResponse(msg)) => assert!(msg.contains("BOGUS")),
        other => panic!("Expected UnexpectedResponse, got {other:?}"),
    }
}

#[test]
fn empty_line_is_malformed() {
    match parse_response("  \n") {
        Err(ProtocolError::MalformedResponse(msg)) => assert_eq!(msg, "empty line"),
        other => panic!("Expected MalformedResponse, got {other:?}"),
    }
}

#[test]
fn malformed_message_carries_the_line() {
    match parse_response("HELLO x OK\n") {
        Err(ProtocolError::MalformedResponse(msg)) => assert_eq!(msg, "HELLO x OK\n"),
        other => panic!("Expected MalformedResponse, got {other:?}"),
    }
    assert!(matches!(parse_response("HELLO 2\n"), Err(ProtocolError::MalformedResponse(_))));
}

#[test]
fn bare_error_reason_is_unknown() {
    match parse_response("ERROR\n").unwrap() {
        ParsedResponse::Error(reason) => assert_eq!(text(&reason), "unknown"),
        other => panic!("Expected Error, got {other:?}"),
    }
    match parse_response("ERROR NOT  IDLE now\n").unwrap() {
        ParsedResponse::Error(reason) => assert_eq!(text(&reason), "NOT IDLE now"),
        other => panic!("Expected Error, got {other:?}"),
    }
}

#[test]
fn status_running_rejects_non_numeric_joint() {
    assert!(matches!(
        parse_response("STATUS RUNNING 0.5 abc\n"),
        Err(ProtocolError::MalformedResponse(_))
    ));
}

#[test]
fn completed_count_out_of_range_is_malformed() {
    assert!(matches!(
        parse_response("STATUS COMPLETED 4294967296\n"),
        Err(ProtocolError::MalformedResponse(_))
    ));
    match parse_response("STATUS COMPLETED 4294967295\n").unwrap() {
        ParsedResponse::StatusCompleted { sample_count } => assert_eq!(sample_count, u32::MAX),
        other => panic!("Expected StatusCompleted, got {other:?}"),
    }
}

#[test]
fn format_line_joins_fields_with_spaces() {
    let fields = vec![b"HELLO".to_vec(), b"2".to_vec()];
    assert_eq!(format_line(&fields), b"HELLO 2\n".to_vec());
    assert_eq!(format_sample_line(&render(&[1.0, -0.25]), 42), b"SAMPLE 1.000000 -0.250000 42\n".to_vec());
}

#[test]
fn chunk_size_fits_receive_buffer() {
    // 19 + 10 * 2 = 39 bytes per line: 3072 / 39 = 78, capped to 64.
    assert_eq!(upload_chunk_size(2), 64);
    // 19 + 10 * 6 = 79 bytes: 3072 / 79 = 38.
    assert_eq!(upload_chunk_size(6), 38);
    // Very wide lines still send one line per chunk.
    assert_eq!(upload_chunk_size(400), 1);
}

#[test]
fn wire_helpers() {
    assert_eq!(encode_decimal(0), b"0".to_vec());
    assert_eq!(encode_decimal(1234567890), b"1234567890".to_vec());
    assert_eq!(parse_unsigned_literal(b"+17", 100), Some(17));
    assert_eq!(parse_unsigned_literal(b"101", 100), None);
    assert_eq!(parse_unsigned_literal(b"", 100), None);
    assert_eq!(split_tokens(b"  a\tbc \n"), vec![b"a".to_vec(), b"bc".to_vec()]);
    assert!(real_text(b"-1.5e-3"));
    assert!(real_text(b".5"));
    assert!(real_text(b"inf"));
    assert!(!real_text(b"1.2.3"));
    assert!(!real_text(b"e5"));
}

/// The threshold `2^1024 - 2^970` and its neighbours, in several spellings.
const OVERFLOW_EDGE: &str = "179769313486231580793728971405303415079934132710037826936173778980444968292764750946649017977587207096330286416692887910946555547851940402630657488671505820681908902000708383676273854845817711531764475730270069855571366959622842914819860834936475292719074168444365510704342711559699508093042880177904174497792";
const BELOW_EDGE: &str = "179769313486231580793728971405303415079934132710037826936173778980444968292764750946649017977587207096330286416692887910946555547851940402630657488671505820681908902000708383676273854845817711531764475730270069855571366959622842914819860834936475292719074168444365510704342711559699508093042880177904174497791";

#[test]
fn finite_progress_agrees_with_f64_parsing() {
    let cases: Vec<String> = vec![
        "0".into(),
        "0.45".into(),
        "-0.1".into(),
        "1e308".into(),
        "1e309".into(),
        "-1e999".into(),
        "1e-999".into(),
        "0.0001e312".into(),
        "0.001e312".into(),
        "1.7976931348623157e308".into(),
        "1.7976931348623158e308".into(),
        "1.7976931348623159e308".into(),
        "-1.7976931348623159e308".into(),
        "0e99999999999999999999999999".into(),
        "1e-99999999999999999999999999".into(),
        "1e+99999999999999999999999999".into(),
        "000000000000000001e308".into(),
        "NaN".into(),
        "-Infinity".into(),
        "+inf".into(),
        OVERFLOW_EDGE.into(),
        BELOW_EDGE.into(),
        format!("{BELOW_EDGE}.999999"),
        format!("{OVERFLOW_EDGE}.0"),
        format!("0.{OVERFLOW_EDGE}e309"),
        format!("0.{BELOW_EDGE}e309"),
        format!("{}e-1", &OVERFLOW_EDGE[..308]),
        format!("{}e1", &OVERFLOW_EDGE[..308]),
    ];
    for text in cases {
        let expected = text.parse::<f64>().map(|v| v.is_finite()).unwrap_or(false);
        assert_eq!(finite_real_text(text.as_bytes()), expected, "{text}");
    }
    assert!(!finite_real_text(b"1.2.3"));
    assert!(!finite_real_text(b""));
}

#[test]
fn running_status_at_the_overflow_edge() {
    let at = format!("STATUS RUNNING {OVERFLOW_EDGE} 0\n");
    assert!(matches!(parse_response(&at), Err(ProtocolError::MalformedResponse(_))));
    let below = format!("STATUS RUNNING {BELOW_EDGE} 0\n");
    assert!(matches!(parse_response(&below), Ok(ParsedResponse::StatusRunning { .. })));
    // Joint positions are only required to be real numbers.
    assert!(matches!(
        parse_response("STATUS RUNNING 0.5 inf\n"),
        Ok(ParsedResponse::StatusRunning { .. })
    ));
}

#[test]
fn unicode_whitespace_separates_fields() {
    match parse_response("ERROR\u{a0}X\n").unwrap() {
        ParsedResponse::Error(reason) => assert_eq!(reason, b"X".to_vec()),
        other => panic!("expected a firmware error, got {other:?}"),
    }
    assert_eq!(parse_response("STATUS\u{3000}IDLE\n").unwrap(), ParsedResponse::StatusIdle);
    assert_eq!(parse_response("\u{2028}OK\u{85}\n").unwrap(), ParsedResponse::Ack);
    assert!(matches!(
        parse_response("\u{2003}\u{205f}\n"),
        Err(ProtocolError::MalformedResponse(_))
    ));
    let line = "a\u{1680}b\u{2000}c\u{200a}d\u{2029}e\u{202f}f\u{2028}g";
    let expected: Vec<Vec<u8>> = line.split_whitespace().map(|t| t.as_bytes().to_vec()).collect();
    assert_eq!(split_tokens(line.as_bytes()), expected);
    // Other multi-byte characters stay inside their token.
    assert_eq!(split_tokens("é\u{2010}x".as_bytes()), vec!["é\u{2010}x".as_bytes().to_vec()]);
}

use thalos_runtime::capabilities::BackendCapabilities;
use thalos_runtime::events::TemporalInvariants;
use thalos_runtime::hardware::HardwareSafetyConfig;
use thalos_runtime::safety::parity_missing_python3_verdict;

#[test]
fn missing_python3_hard_fails_without_escape_hatch() {
    let err = parity_missing_python3_verdict(false).unwrap_err();
    assert!(err.contains("python3 not on PATH"), "message must name python3: {err}");
    assert!(err.contains("THALOS_ALLOW_PARITY_SKIP=1"), "message must point at the escape hatch: {err}");
    assert!(err.contains("local only, never in CI"), "message must forbid the hatch in CI: {err}");
}

#[test]
fn missing_python3_skips_with_escape_hatch() {
    assert!(parity_missing_python3_verdict(true).is_ok(), "escape hatch must allow the skip");
}

#[test]
fn capabilities_presets() {
    let full = BackendCapabilities::full();
    assert!(full.pause && full.resume && full.io && full.gripper && full.streaming);
    assert!(!full.firmware_repeat);
    let min = BackendCapabilities::minimal();
    assert!(!min.pause && !min.resume && !min.io && !min.gripper && !min.streaming);
    assert!(!min.firmware_repeat);
}

#[test]
fn capabilities_are_minimal() {
    let caps = BackendCapabilities::esp32();
    assert!(!caps.pause);
    assert!(!caps.resume);
    assert!(!caps.io);
    assert!(!caps.gripper);
    assert!(!caps.streaming);
    assert!(caps.firmware_repeat);
}

#[test]
fn default_safety_timeouts() {
    let c = HardwareSafetyConfig::default();
    assert_eq!(c.observation_timeout_ms, 500);
    assert_eq!(c.observation_staleness_limit_ms, 1000);
    assert_eq!(c.convergence_timeout_ms, 10_000);
}

#[test]
fn temporal_stamps() {
    let t = TemporalInvariants::new(1, 2, 3);
    assert_eq!((t.sampled_at_us, t.received_at_us, t.evaluated_at_us), (1, 2, 3));
    let now = TemporalInvariants::current(7);
    assert_eq!(now.sampled_at_us, 7);
    assert_eq!(now.received_at_us, now.evaluated_at_us);
    assert!(now.received_at_us > 1_600_000_000_000_000, "clock reads microseconds since the epoch");
}

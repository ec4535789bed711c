# thalos_runtime

The verified core of the Thalos execution runtime, written in Verus. Every
function under `src/` carries a contract that Verus proves.

## Layout

- `src/plan.rs` — repeat modes, the session status projection and the
  executor state machine.
- `src/lifecycle.rs` — the domain execution session: configuration,
  lifecycle state machine with its recorded history, tick counters, and the
  session registry.
- `src/session_history.rs`, `src/events.rs` — per-session histories rebuilt
  from domain events; tick time stamps.
- `src/sessions.rs` — the numbered table of execution sessions.
- `src/tick_loop.rs` — the decisions of the runtime-owned execution loop
  (tick, wait, complete a run-once session, finish).
- `src/history.rs` — the bounded, versioned undo history.
- `src/acquisition.rs` — acquisition leases and the channel subscriptions
  they require.
- `src/manifest.rs`, `src/manifest_builder.rs` — execution manifests, their
  six structural rules, and the builder from timed plans. The two envelope
  rules (joint limits, velocity ceilings) judge real joint values and run in
  `app/safety_envelope.rs` once the structural rules pass.
- `src/wire.rs`, `src/protocol.rs`, `src/esp32.rs`, `src/transport.rs` — the
  ESP32 text protocol (parsing, encoding, upload steps, reply verdicts,
  connection health) and an in-memory transport.
- `src/magnitude.rs` — whether the text of a real number reads as a finite
  `f64`, decided on its digits.
- `src/hardware.rs` — the closed hardware loop: tracking phases, physical
  errors and their messages, safety timeouts, and the tracker that decides
  waypoint advancement and faults from observed telemetry.
- `src/preflight.rs` — preflight reports of execution requests.
- `src/errors.rs`, `src/capabilities.rs`, `src/commands.rs`,
  `src/safety.rs` — error codes and shared vocabulary.
- `tests/` — executable tests of the library.
- `app/` — what runs around the library: serial and TCP transports, the
  asynchronous ESP32 driver, the physical safety envelope and velocity
  re-timer, the hardware executor over a robot link, the execution loop
  driver, the on-disk session store and the floating-point trajectory clock.

//! Verified core of the Thalos execution runtime: session lifecycles,
//! undo history, acquisition leases, the ESP32 wire protocol and the
//! structural rules of execution manifests.

pub mod plan;
pub mod lifecycle;
pub mod history;
pub mod acquisition;
pub mod wire;
pub mod magnitude;
pub mod manifest;
pub mod transport;
pub mod protocol;
pub mod errors;
pub mod preflight;
pub mod manifest_builder;
pub mod hardware;
pub mod events;
pub mod commands;
pub mod capabilities;
pub mod safety;
pub mod esp32;
pub mod sessions;
pub mod session_history;
pub mod tick_loop;

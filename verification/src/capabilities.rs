//! What a controller backend supports.

use vstd::prelude::*;

verus! {

/// Descriptor of a backend's capabilities.
#[derive(Debug, Clone, Copy, PartialEq, Eq, Structural)]
pub struct BackendCapabilities {
    pub pause: bool,
    pub resume: bool,
    pub io: bool,
    pub gripper: bool,
    pub streaming: bool,
    /// The backend repeats the trajectory itself, the host never
    /// re-executing between passes.
    pub firmware_repeat: bool,
}

impl BackendCapabilities {
    /// Every feature supported (repetition stays with the host).
    pub fn full() -> (c: Self)
        ensures
            c.pause && c.resume && c.io && c.gripper && c.streaming,
            !c.firmware_repeat,
    {
        BackendCapabilities {
            pause: true,
            resume: true,
            io: true,
            gripper: true,
            streaming: true,
            firmware_repeat: false,
        }
    }

    /// Only execution and stop.
    pub fn minimal() -> (c: Self)
        ensures
            !c.pause && !c.resume && !c.io && !c.gripper && !c.streaming,
            !c.firmware_repeat,
    {
        BackendCapabilities {
            pause: false,
            resume: false,
            io: false,
            gripper: false,
            streaming: false,
            firmware_repeat: false,
        }
    }

    /// The capabilities of the ESP32 backend: minimal, with the repetition
    /// done by the firmware.
    pub fn esp32() -> (c: Self)
        ensures
            !c.pause && !c.resume && !c.io && !c.gripper && !c.streaming,
            c.firmware_repeat,
    {
        BackendCapabilities { firmware_repeat: true, ..BackendCapabilities::minimal() }
    }
}

} // verus!

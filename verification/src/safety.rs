//! The physical safety envelope's limit provenance, and the verdict of the
//! parity gate that holds the envelope to its canonical source.

use vstd::prelude::*;

verus! {

/// Provenance of a safety limit value.
#[derive(Debug, Clone, Copy, PartialEq, Eq, Structural)]
pub enum LimitSource {
    /// Declared by the mechanism's URDF model.
    Urdf,
    /// Found by physical measurement or calibration.
    Measured,
    /// Operator or tuning configuration.
    Configured,
    /// Provisional: not physically validated yet.
    Temporary,
}

/// The safety parity gate's verdict when no Python interpreter is found:
/// a hard failure, with a message naming the interpreter, the local escape
/// hatch and its ban in CI; or a skip when the escape hatch was requested.
pub fn parity_missing_python3_verdict(skip_requested: bool) -> (r: Result<(), String>)
    ensures
        skip_requested <==> r is Ok,
        r matches Err(m) ==> m@ == parity_failure_message(),
{
    if skip_requested {
        Ok(())
    } else {
        Err(String::from_str(
            "python3 not on PATH — the safety parity gate did not run; install python3 or set THALOS_ALLOW_PARITY_SKIP=1 to skip (local only, never in CI)",
        ))
    }
}

/// The message of a failed parity gate.
pub open spec fn parity_failure_message() -> Seq<char> {
    "python3 not on PATH — the safety parity gate did not run; install python3 or set THALOS_ALLOW_PARITY_SKIP=1 to skip (local only, never in CI)"@
}

} // verus!

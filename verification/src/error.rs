//! The ways in which an invocation of the workshop fails.

use vstd::prelude::*;

verus! {

/// Why an invocation failed. Every failure ends the invocation; the registry
/// answers a failed transfer notification by restoring the previous owner.
#[derive(Clone, Copy, Debug, PartialEq, Eq, Structural)]
pub enum WorkshopError {
    /// The caller is not one of the trusted registries.
    Unauthorized,
    /// The instruction is none of the keep and return keywords.
    UnrecognizedInstruction,
    /// The call on which a deferred decision waited did not succeed.
    SubCallFailed,
    /// The workshop was set up a second time.
    DoubleInitialization,
}

} // verus!

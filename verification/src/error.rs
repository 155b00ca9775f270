//! The ways in which supervision can go wrong.

use vstd::prelude::*;

verus! {

/// The operating system could not start the worker: the executable is
/// missing, may not be run, or there is no room for another process.
///
/// A worker that did not start is never treated as if it ran: nothing is
/// installed for it, and the failure is handed to the operator.
#[derive(Clone, Debug, PartialEq, Eq)]
pub struct SpawnError {
    /// What the operating system said.
    pub message: String,
}

/// The operating system refused or failed to terminate the worker's process
/// group: the group was already gone, or the signal was not permitted.
///
/// A failed kill is reported and never holds the exit back.
#[derive(Clone, Debug, PartialEq, Eq)]
pub struct KillError {
    /// What the operating system said.
    pub message: String,
}

/// A state that correct use never reaches: a defect of the caller, reported
/// so that it can stop loudly.
#[derive(Clone, Copy, Debug, PartialEq, Eq)]
pub enum InvariantViolation {
    /// A handle was to be installed over one that is still in the slot.
    AlreadyInstalled,
    /// A handle was to be installed after the slot had been drained.
    AlreadyDrained,
}

} // verus!

//! The start of the worker: whether one is spawned, and what becomes of the
//! attempt.

use crate::error::SpawnError;
use crate::registry::{Registry, Slot};
use vstd::prelude::*;

verus! {

/// The configuration in which the application runs.
#[derive(Clone, Copy, Debug, PartialEq, Eq)]
pub enum Deployment {
    /// The worker is run out of band by the developer; none is spawned.
    Development,
    /// The application spawns its own worker, once, during setup.
    Production,
}

/// What came of the spawn step of the setup.
#[derive(Debug, PartialEq, Eq)]
pub enum SpawnOutcome<H> {
    /// The step was skipped.
    Skipped,
    /// The worker runs in a process group of its own, behind this handle.
    Spawned(H),
    /// The operating system could not create the process.
    Failed(SpawnError),
}

impl Deployment {
    /// Whether this configuration spawns a worker.
    pub open spec fn spawns(self) -> bool {
        self == Deployment::Production
    }

    /// Whether the setup has to spawn a worker.
    pub fn spawns_worker(self) -> (spawns: bool)
        ensures
            spawns == self.spawns(),
    {
        match self {
            Deployment::Development => false,
            Deployment::Production => true,
        }
    }
}

impl<H> SpawnOutcome<H> {
    /// The slot that the setup leaves behind.
    pub open spec fn slot(self) -> Slot<H> {
        match self {
            SpawnOutcome::Spawned(handle) => Slot::Holding(handle),
            _ => Slot::Vacant,
        }
    }

    /// The failure that the operator has to hear of, if there is one.
    pub open spec fn failure(self) -> Option<SpawnError> {
        match self {
            SpawnOutcome::Failed(error) => Some(error),
            _ => None,
        }
    }
}

/// Ends the setup: makes the registry and installs the worker's handle where
/// one was spawned.
///
/// A failed spawn leaves the registry vacant and comes back as the error to
/// report; the application goes on without a worker.
pub fn register<H>(outcome: SpawnOutcome<H>) -> (result: (Registry<H>, Option<SpawnError>))
    ensures
        result.0@ == outcome.slot(),
        result.1 == outcome.failure(),
{
    let mut registry: Registry<H> = Registry::new();
    match outcome {
        SpawnOutcome::Skipped => (registry, None),
        SpawnOutcome::Spawned(handle) => match registry.install(handle) {
            Ok(()) => (registry, None),
            // A new registry is vacant, and a vacant registry refuses nothing.
            Err(_) => unreached(),
        },
        SpawnOutcome::Failed(error) => (registry, Some(error)),
    }
}

} // verus!

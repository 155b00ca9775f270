//! The shutdown coordinator: what a window event asks of the application.
//!
//! The coordinator never touches the window system, a lock or a process
//! itself. It answers with the actions to perform, in the order in which they
//! are to be performed, and takes back what two of them yield: the registry,
//! once the application holds it to the exclusion of everyone else, and the
//! outcome of the kill.

use crate::error::KillError;
use crate::registry::{Registry, Slot};
use vstd::prelude::*;

verus! {

/// The status with which the application leaves after a shutdown.
pub const EXIT_CODE: i32 = 0;

/// A window lifecycle event, as far as the coordinator tells them apart.
#[derive(Clone, Copy, Debug, PartialEq, Eq)]
pub enum WindowEvent {
    /// The user asked to close the window; the close can still be prevented.
    CloseRequested,
    /// Any other event.
    Other,
}

/// One thing for the application to do. Actions are performed in the order
/// in which the coordinator lists them, each one to its end before the next.
#[derive(Debug, PartialEq, Eq)]
pub enum Action<H> {
    /// Keep the window from closing by itself.
    PreventClose,
    /// Get hold of the registry, to the exclusion of every other caller, and
    /// perform what [`on_registry_locked`] answers.
    LockRegistry,
    /// Kill the whole process group behind the handle, and perform what
    /// [`on_kill_returned`] answers to the outcome.
    Kill(H),
    /// Tell the operator that the kill failed.
    Report(KillError),
    /// Terminate the application process with this status.
    Exit(i32),
}

/// What a window event asks for.
pub open spec fn event_actions<H>(event: WindowEvent) -> Seq<Action<H>> {
    match event {
        WindowEvent::CloseRequested => seq![Action::PreventClose, Action::LockRegistry],
        WindowEvent::Other => Seq::empty(),
    }
}

/// What is to be done with what the slot holds, once the close was prevented.
pub open spec fn seizure_actions<H>(slot: Slot<H>) -> Seq<Action<H>> {
    match slot {
        Slot::Holding(handle) => seq![Action::Kill(handle)],
        _ => seq![Action::Exit(EXIT_CODE)],
    }
}

/// What is left to do once the kill has returned.
pub open spec fn kill_actions<H>(outcome: Result<(), KillError>) -> Seq<Action<H>> {
    match outcome {
        Ok(()) => seq![Action::Exit(EXIT_CODE)],
        Err(error) => seq![Action::Report(error), Action::Exit(EXIT_CODE)],
    }
}

/// Handles one window event.
///
/// Every event but a close request is ignored. A close request is answered
/// by preventing the close, at once and whatever the state of the worker: the
/// coordinator does not so much as look at the registry before the window is
/// safe. Only then is the registry asked for.
pub fn on_window_event<H>(event: WindowEvent) -> (actions: Vec<Action<H>>)
    ensures
        actions@ == event_actions::<H>(event),
{
    let mut actions: Vec<Action<H>> = Vec::new();
    match event {
        WindowEvent::CloseRequested => {
            actions.push(Action::PreventClose);
            actions.push(Action::LockRegistry);
        },
        WindowEvent::Other => {},
    }
    actions
}

/// Seizes the worker's handle, after the close was prevented.
///
/// The handle is taken out of the registry in one step with the test for it.
/// If there is one, the worker is to be killed, and the exit follows from
/// [`on_kill_returned`]. If there is none, because no worker was installed or
/// an earlier close request has seized it, the application is to exit right
/// away.
pub fn on_registry_locked<H>(registry: &mut Registry<H>) -> (actions: Vec<Action<H>>)
    ensures
        actions@ == seizure_actions(old(registry)@),
        final(registry)@ == old(registry)@.taken(),
{
    let mut actions: Vec<Action<H>> = Vec::new();
    match registry.take() {
        Some(handle) => actions.push(Action::Kill(handle)),
        None => actions.push(Action::Exit(EXIT_CODE)),
    }
    actions
}

/// Finishes the shutdown after the kill has returned.
///
/// A failed kill is reported and does not hold the exit back. Nor does the
/// exit wait for the group to be gone: the kill is sent and not confirmed.
/// That is a choice, made so that the user's close never hangs on a worker
/// that will not die.
pub fn on_kill_returned<H>(outcome: Result<(), KillError>) -> (actions: Vec<Action<H>>)
    ensures
        actions@ == kill_actions::<H>(outcome),
{
    let mut actions: Vec<Action<H>> = Vec::new();
    match outcome {
        Ok(()) => {},
        Err(error) => actions.push(Action::Report(error)),
    }
    actions.push(Action::Exit(EXIT_CODE));
    actions
}

} // verus!

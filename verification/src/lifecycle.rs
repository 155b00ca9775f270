//! The shutdown as a whole: what the application performs over a stream of
//! window events, and what is true of every such run.
//!
//! The functions of the coordinator answer one step at a time. Here their
//! answers are put together into runs, and the guarantees of the supervision
//! are proved of all runs: at most one kill, the close prevented before
//! anything else, the kill before the exit, and an exit in every case.

use crate::coordinator::{
    event_actions, kill_actions, seizure_actions, Action, WindowEvent, EXIT_CODE,
};
use crate::error::KillError;
use crate::registry::Slot;
use vstd::prelude::*;

verus! {

/// Where the application stands on its way out. The state is never stored: it
/// is read off the actions performed so far.
#[derive(Clone, Copy, Debug, PartialEq, Eq)]
pub enum ShutdownState {
    /// No close has been requested.
    Running,
    /// A close was requested and the window kept from closing.
    CloseRequested,
    /// The handle was taken from the registry and the kill asked for.
    Terminating,
    /// The application was told to terminate.
    Exited,
}

/// The state after `action` was performed in `state`, or `None` where the
/// action has no place in that state.
///
/// A close request that comes after the application was told to exit is
/// still answered, so `Exited` has room for preventing the close, for looking
/// into the registry and for another exit; it has none for a kill or a report.
pub open spec fn step<H>(state: ShutdownState, action: Action<H>) -> Option<ShutdownState> {
    match (state, action) {
        (ShutdownState::Running, Action::PreventClose) => Some(ShutdownState::CloseRequested),
        (ShutdownState::CloseRequested, Action::LockRegistry) => Some(
            ShutdownState::CloseRequested,
        ),
        (ShutdownState::CloseRequested, Action::Kill(_)) => Some(ShutdownState::Terminating),
        (ShutdownState::CloseRequested, Action::Exit(_)) => Some(ShutdownState::Exited),
        (ShutdownState::Terminating, Action::Report(_)) => Some(ShutdownState::Terminating),
        (ShutdownState::Terminating, Action::Exit(_)) => Some(ShutdownState::Exited),
        (ShutdownState::Exited, Action::PreventClose) => Some(ShutdownState::Exited),
        (ShutdownState::Exited, Action::LockRegistry) => Some(ShutdownState::Exited),
        (ShutdownState::Exited, Action::Exit(_)) => Some(ShutdownState::Exited),
        _ => None,
    }
}

/// The state after `actions` were performed in order from `state`, or `None`
/// where one of them had no place.
pub open spec fn steps<H>(state: ShutdownState, actions: Seq<Action<H>>) -> Option<ShutdownState>
    decreases actions.len(),
{
    if actions.len() == 0 {
        Some(state)
    } else {
        match steps(state, actions.drop_last()) {
            Some(reached) => step(reached, actions.last()),
            None => None,
        }
    }
}

impl ShutdownState {
    /// The state after `action` was performed in this one, or `None` where the
    /// action has no place in it.
    pub fn after<H>(self, action: &Action<H>) -> (next: Option<ShutdownState>)
        ensures
            next == step(self, *action),
    {
        match (self, action) {
            (ShutdownState::Running, Action::PreventClose) => Some(ShutdownState::CloseRequested),
            (ShutdownState::CloseRequested, Action::LockRegistry) => Some(
                ShutdownState::CloseRequested,
            ),
            (ShutdownState::CloseRequested, Action::Kill(_)) => Some(ShutdownState::Terminating),
            (ShutdownState::CloseRequested, Action::Exit(_)) => Some(ShutdownState::Exited),
            (ShutdownState::Terminating, Action::Report(_)) => Some(ShutdownState::Terminating),
            (ShutdownState::Terminating, Action::Exit(_)) => Some(ShutdownState::Exited),
            (ShutdownState::Exited, Action::PreventClose) => Some(ShutdownState::Exited),
            (ShutdownState::Exited, Action::LockRegistry) => Some(ShutdownState::Exited),
            (ShutdownState::Exited, Action::Exit(_)) => Some(ShutdownState::Exited),
            _ => None,
        }
    }

    /// The state after `actions` were performed in order from this one, or
    /// `None` where one of them had no place.
    pub fn after_all<H>(self, actions: &Vec<Action<H>>) -> (reached: Option<ShutdownState>)
        ensures
            reached == steps(self, actions@),
    {
        let mut state = self;
        let mut done: usize = 0;
        while done < actions.len()
            invariant
                done <= actions.len(),
                steps(self, actions@.take(done as int)) == Some(state),
            decreases actions.len() - done,
        {
            proof {
                lemma_steps_next(self, actions@, done as int);
                lemma_steps_concat(self, actions@.take(done + 1), actions@.skip(done + 1));
                assert(actions@.take(done + 1) + actions@.skip(done + 1) =~= actions@);
            }
            match state.after(&actions[done]) {
                Some(next) => {
                    state = next;
                },
                None => {
                    return None;
                },
            }
            done += 1;
        }
        assert(actions@.take(done as int) =~= actions@);
        Some(state)
    }
}

/// The handles that `actions` ask to kill, in order.
pub open spec fn killed<H>(actions: Seq<Action<H>>) -> Seq<H>
    decreases actions.len(),
{
    if actions.len() == 0 {
        Seq::empty()
    } else {
        match actions.last() {
            Action::Kill(handle) => killed(actions.drop_last()).push(handle),
            _ => killed(actions.drop_last()),
        }
    }
}

/// The failures that `actions` report, in order.
pub open spec fn reported<H>(actions: Seq<Action<H>>) -> Seq<KillError>
    decreases actions.len(),
{
    if actions.len() == 0 {
        Seq::empty()
    } else {
        match actions.last() {
            Action::Report(error) => reported(actions.drop_last()).push(error),
            _ => reported(actions.drop_last()),
        }
    }
}

/// The slot after one window event was handled.
pub open spec fn event_slot<H>(slot: Slot<H>, event: WindowEvent) -> Slot<H> {
    match event {
        WindowEvent::CloseRequested => slot.taken(),
        WindowEvent::Other => slot,
    }
}

/// Everything that is performed for one window event, from a registry in
/// state `slot`: the coordinator's answer to the event; for a close request,
/// its answer to the registry; and, where that asked for a kill, its answer
/// once the kill has returned `outcome`.
pub open spec fn handled<H>(
    slot: Slot<H>,
    event: WindowEvent,
    outcome: Result<(), KillError>,
) -> Seq<Action<H>> {
    match event {
        WindowEvent::Other => event_actions(event),
        WindowEvent::CloseRequested => if slot is Holding {
            event_actions(event) + seizure_actions(slot) + kill_actions(outcome)
        } else {
            event_actions(event) + seizure_actions(slot)
        },
    }
}

/// The slot after `events` were handled one after the other.
pub open spec fn slot_after<H>(slot: Slot<H>, events: Seq<WindowEvent>) -> Slot<H>
    decreases events.len(),
{
    if events.len() == 0 {
        slot
    } else {
        event_slot(slot_after(slot, events.drop_last()), events.last())
    }
}

/// Everything that is performed while `events` are handled one after the
/// other, from a registry in state `slot`. No run asks for more than one
/// kill, so one `outcome` stands for what a kill returns.
pub open spec fn trace<H>(
    slot: Slot<H>,
    events: Seq<WindowEvent>,
    outcome: Result<(), KillError>,
) -> Seq<Action<H>>
    decreases events.len(),
{
    if events.len() == 0 {
        Seq::empty()
    } else {
        trace(slot, events.drop_last(), outcome) + handled(
            slot_after(slot, events.drop_last()),
            events.last(),
            outcome,
        )
    }
}

/// Whether a close request is among `events`.
pub open spec fn close_requested(events: Seq<WindowEvent>) -> bool {
    events.contains(WindowEvent::CloseRequested)
}

proof fn lemma_killed_concat<H>(a: Seq<Action<H>>, b: Seq<Action<H>>)
    ensures
        killed(a + b) == killed(a) + killed(b),
    decreases b.len(),
{
    if b.len() > 0 {
        lemma_killed_concat(a, b.drop_last());
        assert((a + b).drop_last() =~= a + b.drop_last());
    }
}

proof fn lemma_reported_concat<H>(a: Seq<Action<H>>, b: Seq<Action<H>>)
    ensures
        reported(a + b) == reported(a) + reported(b),
    decreases b.len(),
{
    if b.len() > 0 {
        lemma_reported_concat(a, b.drop_last());
        assert((a + b).drop_last() =~= a + b.drop_last());
    }
}

proof fn lemma_steps_concat<H>(state: ShutdownState, a: Seq<Action<H>>, b: Seq<Action<H>>)
    ensures
        steps(state, a + b) == match steps(state, a) {
            Some(reached) => steps(reached, b),
            None => None,
        },
    decreases b.len(),
{
    if b.len() > 0 {
        lemma_steps_concat(state, a, b.drop_last());
        assert((a + b).drop_last() =~= a + b.drop_last());
    }
}

/// Where all of `actions` have a place, so has every beginning of them.
proof fn lemma_steps_prefix<H>(state: ShutdownState, actions: Seq<Action<H>>, upto: int)
    requires
        0 <= upto <= actions.len(),
        steps(state, actions) is Some,
    ensures
        steps(state, actions.take(upto)) is Some,
{
    lemma_steps_concat(state, actions.take(upto), actions.skip(upto));
    assert(actions.take(upto) + actions.skip(upto) =~= actions);
}

/// What one more action does to the state reached so far.
proof fn lemma_steps_next<H>(state: ShutdownState, actions: Seq<Action<H>>, at: int)
    requires
        0 <= at < actions.len(),
    ensures
        steps(state, actions.take(at + 1)) == match steps(state, actions.take(at)) {
            Some(reached) => step(reached, actions[at]),
            None => None,
        },
{
    assert(actions.take(at + 1).drop_last() =~= actions.take(at));
}

/// Once `Exited` is reached, every further action that has a place leaves
/// the state at `Exited`.
proof fn lemma_exited_stays<H>(
    state: ShutdownState,
    actions: Seq<Action<H>>,
    from: int,
    upto: int,
)
    requires
        0 <= from <= upto <= actions.len(),
        steps(state, actions.take(from)) == Some(ShutdownState::Exited),
        steps(state, actions.take(upto)) is Some,
    ensures
        steps(state, actions.take(upto)) == Some(ShutdownState::Exited),
    decreases upto - from,
{
    if from < upto {
        lemma_steps_next(state, actions, upto - 1);
        lemma_exited_stays(state, actions, from, upto - 1);
    }
}

/// `Terminating` is reached from `Running` only through a kill.
proof fn lemma_terminating_after_kill<H>(actions: Seq<Action<H>>, upto: int)
    requires
        0 <= upto <= actions.len(),
        steps(ShutdownState::Running, actions.take(upto)) == Some(ShutdownState::Terminating),
    ensures
        exists|at: int| 0 <= at < upto && actions[at] is Kill,
    decreases upto,
{
    if upto > 0 {
        lemma_steps_next(ShutdownState::Running, actions, upto - 1);
        if !(actions[upto - 1] is Kill) {
            lemma_terminating_after_kill(actions, upto - 1);
        }
    }
}

proof fn lemma_close_requested_unfold(events: Seq<WindowEvent>)
    requires
        events.len() > 0,
    ensures
        close_requested(events) == (close_requested(events.drop_last()) || events.last()
            == WindowEvent::CloseRequested),
{
    let before = events.drop_last();
    if close_requested(events) {
        let at = choose|at: int|
            0 <= at < events.len() && events[at] == WindowEvent::CloseRequested;
        if at < before.len() {
            assert(before[at] == WindowEvent::CloseRequested);
        }
    }
    if close_requested(before) {
        let at = choose|at: int|
            0 <= at < before.len() && before[at] == WindowEvent::CloseRequested;
        assert(events[at] == WindowEvent::CloseRequested);
    }
}

/// What is performed for a single event, spelled out.
proof fn lemma_handled<H>(slot: Slot<H>, event: WindowEvent, outcome: Result<(), KillError>)
    ensures
        killed(handled(slot, event, outcome)) == match slot {
            Slot::Holding(handle) if event == WindowEvent::CloseRequested => seq![handle],
            _ => Seq::empty(),
        },
        reported(handled(slot, event, outcome)) == match (slot, outcome) {
            (Slot::Holding(_), Err(error)) if event == WindowEvent::CloseRequested => seq![error],
            _ => Seq::empty(),
        },
        event == WindowEvent::CloseRequested ==> steps(
            ShutdownState::Running,
            handled(slot, event, outcome),
        ) == Some(ShutdownState::Exited),
        event == WindowEvent::CloseRequested && !(slot is Holding) ==> steps(
            ShutdownState::Exited,
            handled(slot, event, outcome),
        ) == Some(ShutdownState::Exited),
        event == WindowEvent::Other ==> handled(slot, event, outcome) == Seq::<Action<H>>::empty(),
{
    reveal_with_fuel(killed, 6);
    reveal_with_fuel(reported, 6);
    reveal_with_fuel(steps, 6);
}

/// The whole of a run, spelled out: where the slot ends, which handles were
/// to be killed, which failures were reported and which state was reached.
proof fn lemma_run<H>(slot: Slot<H>, events: Seq<WindowEvent>, outcome: Result<(), KillError>)
    ensures
        slot_after(slot, events) == if close_requested(events) {
            slot.taken()
        } else {
            slot
        },
        killed(trace(slot, events, outcome)) == match slot {
            Slot::Holding(handle) if close_requested(events) => seq![handle],
            _ => Seq::empty(),
        },
        reported(trace(slot, events, outcome)) == match (slot, outcome) {
            (Slot::Holding(_), Err(error)) if close_requested(events) => seq![error],
            _ => Seq::empty(),
        },
        steps(ShutdownState::Running, trace(slot, events, outcome)) == Some(
            if close_requested(events) {
                ShutdownState::Exited
            } else {
                ShutdownState::Running
            },
        ),
    decreases events.len(),
{
    if events.len() > 0 {
        let before = events.drop_last();
        let earlier = trace(slot, before, outcome);
        let latest = handled(slot_after(slot, before), events.last(), outcome);
        lemma_run(slot, before, outcome);
        lemma_close_requested_unfold(events);
        lemma_killed_concat(earlier, latest);
        lemma_reported_concat(earlier, latest);
        lemma_steps_concat(ShutdownState::Running, earlier, latest);
        lemma_handled(slot_after(slot, before), events.last(), outcome);
    }
}

/// Idempotence. However many close requests arrive, and whatever else arrives
/// between them, at most one kill is asked for. It is asked for exactly when
/// the registry held a handle at the first close request, and it is the kill
/// of that handle.
pub proof fn theorem_kill_at_most_once<H>(
    slot: Slot<H>,
    events: Seq<WindowEvent>,
    outcome: Result<(), KillError>,
)
    ensures
        killed(trace(slot, events, outcome)).len() <= 1,
        killed(trace(slot, events, outcome)) == match slot {
            Slot::Holding(handle) if close_requested(events) => seq![handle],
            _ => Seq::empty(),
        },
{
    lemma_run(slot, events, outcome);
}

/// Without a worker the application still leaves, and leaves quietly. From a
/// registry into which nothing was ever installed, what is performed for a
/// close request is: the close prevented, the registry looked into, the exit
/// with the status of success. Over the whole run nothing is killed and
/// nothing is reported, and once a close was requested the application has
/// been told to exit.
pub proof fn theorem_exit_without_worker<H>(
    events: Seq<WindowEvent>,
    outcome: Result<(), KillError>,
)
    ensures
        handled(Slot::<H>::Vacant, WindowEvent::CloseRequested, outcome) == seq![
            Action::<H>::PreventClose,
            Action::<H>::LockRegistry,
            Action::<H>::Exit(EXIT_CODE),
        ],
        slot_after(Slot::<H>::Vacant, events) == Slot::<H>::Vacant,
        killed(trace(Slot::<H>::Vacant, events, outcome)) == Seq::<H>::empty(),
        reported(trace(Slot::<H>::Vacant, events, outcome)) == Seq::<KillError>::empty(),
        close_requested(events) ==> steps(
            ShutdownState::Running,
            trace(Slot::<H>::Vacant, events, outcome),
        ) == Some(ShutdownState::Exited),
{
    lemma_run(Slot::<H>::Vacant, events, outcome);
}

/// Suppression comes first and is unconditional. The answer to a close
/// request begins with `PreventClose` and depends on nothing but the event;
/// and everything that a run performs, whatever the registry holds and
/// whatever the kill returns, begins with `PreventClose`: the registry is not
/// looked into, and nothing is killed, reported or exited, before the window
/// was kept from closing.
pub proof fn theorem_close_prevented_first<H>(
    slot: Slot<H>,
    events: Seq<WindowEvent>,
    outcome: Result<(), KillError>,
)
    ensures
        event_actions::<H>(WindowEvent::CloseRequested)[0] == Action::<H>::PreventClose,
        handled(slot, WindowEvent::CloseRequested, outcome)[0] == Action::<H>::PreventClose,
        trace(slot, events, outcome).len() > 0 ==> trace(slot, events, outcome)[0]
            == Action::<H>::PreventClose,
    decreases events.len(),
{
    if events.len() > 0 {
        theorem_close_prevented_first(slot, events.drop_last(), outcome);
    }
}

/// The order of a shutdown. What is performed for one close request is, in
/// this order: the close prevented; the registry locked and the handle taken;
/// the worker killed, if there was a handle; the failure reported, if the kill
/// failed; the exit. The exit is there in every case, after the kill and
/// whatever the kill returned, and it is the last thing done. The registry
/// holds nothing afterwards.
pub proof fn theorem_shutdown_sequence<H>(slot: Slot<H>, outcome: Result<(), KillError>)
    ensures
        handled(slot, WindowEvent::CloseRequested, outcome) == match (slot, outcome) {
            (Slot::Holding(handle), Ok(())) => seq![
                Action::PreventClose,
                Action::LockRegistry,
                Action::Kill(handle),
                Action::Exit(EXIT_CODE),
            ],
            (Slot::Holding(handle), Err(error)) => seq![
                Action::PreventClose,
                Action::LockRegistry,
                Action::Kill(handle),
                Action::Report(error),
                Action::Exit(EXIT_CODE),
            ],
            _ => seq![Action::PreventClose, Action::LockRegistry, Action::Exit(EXIT_CODE)],
        },
        handled(slot, WindowEvent::CloseRequested, outcome).last() == Action::<H>::Exit(EXIT_CODE),
        event_slot(slot, WindowEvent::CloseRequested).held() is None,
{
}

/// Every run walks the shutdown states forward: `Running`, then
/// `CloseRequested`, then `Terminating` where a handle was taken, then
/// `Exited`. No action of a run is performed in a state in which it has no
/// place. A run ends in `Exited` if a close was requested and in `Running` if
/// none was.
pub proof fn theorem_states_in_order<H>(
    slot: Slot<H>,
    events: Seq<WindowEvent>,
    outcome: Result<(), KillError>,
)
    ensures
        steps(ShutdownState::Running, trace(slot, events, outcome)) == Some(
            if close_requested(events) {
                ShutdownState::Exited
            } else {
                ShutdownState::Running
            },
        ),
{
    lemma_run(slot, events, outcome);
}

/// Whether every kill among `actions` comes before every exit.
pub open spec fn kills_before_exits<H>(actions: Seq<Action<H>>) -> bool {
    forall|kill: int, exit: int|
        0 <= kill < actions.len() && 0 <= exit < actions.len() && #[trigger] actions[kill] is Kill
            && #[trigger] actions[exit] is Exit ==> kill < exit
}

/// Whether every report among `actions` comes before every exit.
pub open spec fn reports_before_exits<H>(actions: Seq<Action<H>>) -> bool {
    forall|report: int, exit: int|
        0 <= report < actions.len() && 0 <= exit < actions.len()
            && #[trigger] actions[report] is Report && #[trigger] actions[exit] is Exit ==> report
            < exit
}

/// Whether every report among `actions` comes after a kill.
pub open spec fn reports_after_kill<H>(actions: Seq<Action<H>>) -> bool {
    forall|report: int|
        0 <= report < actions.len() && #[trigger] actions[report] is Report ==> exists|kill: int|
            0 <= kill < report && #[trigger] actions[kill] is Kill
}

/// The kill comes before the exit. In every run, whatever is killed is
/// killed before any exit, and whatever is reported is reported after a kill
/// and before any exit: the application is never told to leave before the
/// kill was tried and its failure, if any, told.
pub proof fn theorem_kill_before_exit<H>(
    slot: Slot<H>,
    events: Seq<WindowEvent>,
    outcome: Result<(), KillError>,
)
    ensures
        kills_before_exits(trace(slot, events, outcome)),
        reports_before_exits(trace(slot, events, outcome)),
        reports_after_kill(trace(slot, events, outcome)),
{
    let run = trace(slot, events, outcome);
    lemma_run(slot, events, outcome);
    assert forall|late: int, exit: int|
        0 <= late < run.len() && 0 <= exit < run.len() && (run[late] is Kill
            || run[late] is Report) && run[exit] is Exit implies late < exit by {
        if exit < late {
            lemma_steps_prefix(ShutdownState::Running, run, exit + 1);
            lemma_steps_next(ShutdownState::Running, run, exit);
            lemma_steps_prefix(ShutdownState::Running, run, late);
            lemma_exited_stays(ShutdownState::Running, run, exit + 1, late);
            lemma_steps_prefix(ShutdownState::Running, run, late + 1);
            lemma_steps_next(ShutdownState::Running, run, late);
        }
    }
    assert forall|report: int| 0 <= report < run.len() && run[report] is Report implies exists|
        kill: int,
    |
        0 <= kill < report && run[kill] is Kill by {
        lemma_steps_prefix(ShutdownState::Running, run, report + 1);
        lemma_steps_next(ShutdownState::Running, run, report);
        lemma_terminating_after_kill(run, report);
    }
}

/// A failed kill is reported and nothing else is: a run reports exactly the
/// failure of the one kill it asked for, and reports nothing where the kill
/// succeeded or none was asked for.
pub proof fn theorem_failure_reported<H>(
    slot: Slot<H>,
    events: Seq<WindowEvent>,
    outcome: Result<(), KillError>,
)
    ensures
        reported(trace(slot, events, outcome)) == match (slot, outcome) {
            (Slot::Holding(_), Err(error)) if close_requested(events) => seq![error],
            _ => Seq::empty(),
        },
{
    lemma_run(slot, events, outcome);
}

/// The registry is drained by the first close request and stays as it is
/// under every other event.
pub proof fn theorem_registry_after_run<H>(slot: Slot<H>, events: Seq<WindowEvent>)
    ensures
        slot_after(slot, events) == if close_requested(events) {
            slot.taken()
        } else {
            slot
        },
        close_requested(events) ==> slot_after(slot, events).held() is None,
{
    lemma_run(slot, events, Ok(()));
}

} // verus!

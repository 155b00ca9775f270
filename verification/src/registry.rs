//! The handle registry: one slot that holds at most one worker handle.

use crate::error::InvariantViolation;
use vstd::prelude::*;

verus! {

/// What the registry's slot can be over the lifetime of the application.
///
/// A slot starts `Vacant`, is filled at most once, and is drained at most
/// once. `Drained` is final: nothing is installed again after the handle left.
#[derive(Debug, PartialEq, Eq)]
pub enum Slot<H> {
    /// No worker has been installed.
    Vacant,
    /// The handle of the live worker.
    Holding(H),
    /// A handle was installed and has been taken out.
    Drained,
}

/// A refused installation: the handle comes back to the caller, with the reason.
#[derive(Debug, PartialEq, Eq)]
pub struct Rejected<H> {
    pub handle: H,
    pub violation: InvariantViolation,
}

impl<H> Slot<H> {
    /// The handle in the slot, if there is one.
    pub open spec fn held(self) -> Option<H> {
        match self {
            Slot::Holding(handle) => Some(handle),
            _ => None,
        }
    }

    /// Why the slot would refuse a handle, or `None` where it would take it.
    pub open spec fn refusal(self) -> Option<InvariantViolation> {
        match self {
            Slot::Vacant => None,
            Slot::Holding(_) => Some(InvariantViolation::AlreadyInstalled),
            Slot::Drained => Some(InvariantViolation::AlreadyDrained),
        }
    }

    /// The slot after an attempt to install `handle`.
    pub open spec fn installed(self, handle: H) -> Slot<H> {
        match self {
            Slot::Vacant => Slot::Holding(handle),
            _ => self,
        }
    }

    /// The slot after its handle, if any, was taken out.
    pub open spec fn taken(self) -> Slot<H> {
        match self {
            Slot::Holding(_) => Slot::Drained,
            _ => self,
        }
    }
}

/// What an attempt to install `handle` into `slot` answers.
pub open spec fn install_answer<H>(slot: Slot<H>, handle: H) -> Result<(), Rejected<H>> {
    match slot.refusal() {
        None => Ok(()),
        Some(violation) => Err(Rejected { handle, violation }),
    }
}

/// The shared cell that owns the worker's handle while the worker runs.
///
/// All mutation goes through `&mut self`, so whoever seizes the handle has the
/// registry to itself from the look into the slot to the taking: no two
/// callers can both find the handle there.
#[derive(Debug)]
pub struct Registry<H> {
    state: Slot<H>,
}

impl<H> View for Registry<H> {
    type V = Slot<H>;

    closed spec fn view(&self) -> Slot<H> {
        self.state
    }
}

impl<H> Default for Registry<H> {
    /// A registry into which nothing has been installed.
    fn default() -> (registry: Registry<H>)
        ensures
            registry@ == Slot::<H>::Vacant,
    {
        Registry::new()
    }
}

impl<H> Registry<H> {
    /// A registry into which nothing has been installed.
    pub fn new() -> (registry: Registry<H>)
        ensures
            registry@ == Slot::<H>::Vacant,
    {
        Registry { state: Slot::Vacant }
    }

    /// Puts `handle` into the slot. Only a vacant slot takes one: a second
    /// installation, before or after the first handle was taken, is refused
    /// and the handle handed back.
    pub fn install(&mut self, handle: H) -> (result: Result<(), Rejected<H>>)
        ensures
            final(self)@ == old(self)@.installed(handle),
            result == install_answer(old(self)@, handle),
    {
        match &self.state {
            Slot::Vacant => {
                self.state = Slot::Holding(handle);
                Ok(())
            },
            Slot::Holding(_) => Err(
                Rejected { handle, violation: InvariantViolation::AlreadyInstalled },
            ),
            Slot::Drained => Err(Rejected { handle, violation: InvariantViolation::AlreadyDrained }),
        }
    }

    /// Whether a handle is in the slot.
    pub fn is_holding(&self) -> (holding: bool)
        ensures
            holding == (self@ is Holding),
    {
        match &self.state {
            Slot::Holding(_) => true,
            _ => false,
        }
    }

    /// Whether a handle was installed and has been taken out.
    pub fn is_drained(&self) -> (drained: bool)
        ensures
            drained == (self@ is Drained),
    {
        match &self.state {
            Slot::Drained => true,
            _ => false,
        }
    }

    /// A look at the handle in the slot, which stays where it is.
    pub fn peek(&self) -> (handle: Option<&H>)
        ensures
            self@.held() == match handle {
                Some(held) => Some(*held),
                None => None,
            },
    {
        match &self.state {
            Slot::Holding(handle) => Some(handle),
            _ => None,
        }
    }

    /// Removes the handle and returns it; `None` where the slot holds none.
    pub fn take(&mut self) -> (handle: Option<H>)
        ensures
            handle == old(self)@.held(),
            final(self)@ == old(self)@.taken(),
    {
        let mut state = Slot::Drained;
        core::mem::swap(&mut self.state, &mut state);
        match state {
            Slot::Holding(handle) => Some(handle),
            Slot::Vacant => {
                self.state = Slot::Vacant;
                None
            },
            Slot::Drained => None,
        }
    }
}

/// One use of a registry.
pub enum Operation<H> {
    /// An attempt to install this handle.
    Install(H),
    /// A take.
    Take,
}

impl<H> Slot<H> {
    /// The slot after one operation.
    pub open spec fn after(self, operation: Operation<H>) -> Slot<H> {
        match operation {
            Operation::Install(handle) => self.installed(handle),
            Operation::Take => self.taken(),
        }
    }

    /// The slot after `operations`, one after the other.
    pub open spec fn after_all(self, operations: Seq<Operation<H>>) -> Slot<H>
        decreases operations.len(),
    {
        if operations.len() == 0 {
            self
        } else {
            self.after_all(operations.drop_last()).after(operations.last())
        }
    }

    /// The handles that the takes among `operations` return, in order.
    pub open spec fn yielded(self, operations: Seq<Operation<H>>) -> Seq<H>
        decreases operations.len(),
    {
        if operations.len() == 0 {
            Seq::empty()
        } else {
            let earlier = self.yielded(operations.drop_last());
            match (operations.last(), self.after_all(operations.drop_last())) {
                (Operation::Take, Slot::Holding(handle)) => earlier.push(handle),
                _ => earlier,
            }
        }
    }
}

/// Emptiness after the drain is final. Whatever is tried on a drained
/// registry, it stays drained: every installation is refused and every take
/// returns nothing.
pub proof fn theorem_drained_for_good<H>(operations: Seq<Operation<H>>)
    ensures
        Slot::<H>::Drained.after_all(operations) == Slot::<H>::Drained,
        Slot::<H>::Drained.yielded(operations) == Seq::<H>::empty(),
    decreases operations.len(),
{
    if operations.len() > 0 {
        theorem_drained_for_good(operations.drop_last());
    }
}

/// The installed handle leaves exactly once. A handle installed into a new
/// registry is accepted; the first take returns that handle; and whatever is
/// tried afterwards, installations included, no later take returns anything.
pub proof fn theorem_taken_exactly_once<H>(handle: H, later: Seq<Operation<H>>)
    ensures
        install_answer(Slot::Vacant, handle) == Ok::<(), Rejected<H>>(()),
        Slot::Vacant.installed(handle).held() == Some(handle),
        Slot::Vacant.installed(handle).taken() == Slot::<H>::Drained,
        Slot::Vacant.installed(handle).taken().after_all(later) == Slot::<H>::Drained,
        Slot::Vacant.installed(handle).taken().yielded(later) == Seq::<H>::empty(),
{
    theorem_drained_for_good(later);
}

/// At most one handle ever comes out of a registry, whatever it held at first
/// and however it is used; once one has come out, the registry is drained.
pub proof fn theorem_one_handle_per_lifetime<H>(slot: Slot<H>, operations: Seq<Operation<H>>)
    ensures
        slot.yielded(operations).len() <= 1,
        slot.yielded(operations).len() == 1 ==> slot.after_all(operations) == Slot::<H>::Drained,
    decreases operations.len(),
{
    if operations.len() > 0 {
        theorem_one_handle_per_lifetime(slot, operations.drop_last());
    }
}

} // verus!

//! The VM state machine.

use vstd::prelude::*;

use crate::error::Error;

verus! {

/// Where a VM stands in its life. The first seven states are transitional:
/// they exist only while an operation is in flight. The others are stable.
#[derive(Debug, Clone, Copy, PartialEq, Eq, Hash, Structural)]
pub enum VmState {
    Creating,
    Starting,
    Pausing,
    Resuming,
    Suspending,
    Restoring,
    Destroying,
    Created,
    Started,
    Paused,
    Suspended,
    Destroyed,
}

impl Default for VmState {
    fn default() -> (s: Self)
        ensures
            s == VmState::Creating,
    {
        VmState::Creating
    }
}

/// Whether a VM can rest in `s`.
pub open spec fn stable(s: VmState) -> bool {
    s is Created || s is Started || s is Paused || s is Suspended || s is Destroyed
}

/// Whether the operation `op` may begin in the stable state `from`.
pub open spec fn may_begin(from: VmState, op: VmState) -> bool {
    match op {
        VmState::Starting => from is Created,
        VmState::Pausing => from is Started,
        VmState::Resuming => from is Paused,
        VmState::Suspending => from is Started || from is Paused,
        VmState::Restoring => from is Suspended,
        VmState::Destroying => stable(from) && !(from is Destroyed),
        _ => false,
    }
}

/// Where the operation `op` ends when it succeeds.
pub open spec fn completion(op: VmState) -> Option<VmState> {
    match op {
        VmState::Creating => Some(VmState::Created),
        VmState::Starting => Some(VmState::Started),
        VmState::Pausing => Some(VmState::Paused),
        VmState::Resuming => Some(VmState::Started),
        VmState::Suspending => Some(VmState::Suspended),
        VmState::Restoring => Some(VmState::Started),
        VmState::Destroying => Some(VmState::Destroyed),
        _ => None,
    }
}

/// Whether the operation `op` may fall back to `to` when it fails: to a stable
/// state in which it can have begun. A failed creation leaves nothing behind,
/// and destroying does not fail.
pub open spec fn rolls_back(op: VmState, to: VmState) -> bool {
    match op {
        VmState::Creating => to is Destroyed,
        VmState::Destroying => false,
        _ => may_begin(to, op),
    }
}

/// The moves of the state machine: an operation begins, completes or fails.
pub open spec fn legal(from: VmState, to: VmState) -> bool {
    may_begin(from, to) || completion(from) == Some(to) || rolls_back(from, to)
}

/// The variant's name, as diagnostics print it.
pub open spec fn state_name(s: VmState) -> Seq<char> {
    match s {
        VmState::Creating => "Creating"@,
        VmState::Starting => "Starting"@,
        VmState::Pausing => "Pausing"@,
        VmState::Resuming => "Resuming"@,
        VmState::Suspending => "Suspending"@,
        VmState::Restoring => "Restoring"@,
        VmState::Destroying => "Destroying"@,
        VmState::Created => "Created"@,
        VmState::Started => "Started"@,
        VmState::Paused => "Paused"@,
        VmState::Suspended => "Suspended"@,
        VmState::Destroyed => "Destroyed"@,
    }
}

impl VmState {
    /// Stable states are the ones a VM can rest in; transitional states only
    /// exist while an operation is in flight.
    pub fn is_stable(self) -> (b: bool)
        ensures
            b == stable(self),
    {
        matches!(
            self,
            VmState::Created | VmState::Started | VmState::Paused | VmState::Suspended
                | VmState::Destroyed
        )
    }

    /// Nothing follows a terminal state.
    pub fn is_terminal(self) -> (b: bool)
        ensures
            b == (self is Destroyed),
            b == (forall|next: VmState| !legal(self, next)),
    {
        proof {
            assert(legal(VmState::Creating, VmState::Created));
            assert(legal(VmState::Starting, VmState::Created));
            assert(legal(VmState::Pausing, VmState::Started));
            assert(legal(VmState::Resuming, VmState::Paused));
            assert(legal(VmState::Suspending, VmState::Started));
            assert(legal(VmState::Restoring, VmState::Suspended));
            assert(legal(VmState::Destroying, VmState::Destroyed));
            assert(legal(VmState::Created, VmState::Destroying));
            assert(legal(VmState::Started, VmState::Destroying));
            assert(legal(VmState::Paused, VmState::Destroying));
            assert(legal(VmState::Suspended, VmState::Destroying));
        }
        matches!(self, VmState::Destroyed)
    }

    /// Valid transitions: stable, then transitional, then stable again, where
    /// the second step either completes the operation or rolls back to the
    /// previous stable state on failure.
    pub fn can_transition_to(self, next: VmState) -> (b: bool)
        ensures
            b == legal(self, next),
    {
        match next {
            VmState::Created => matches!(self, VmState::Creating | VmState::Starting),
            VmState::Destroyed => matches!(self, VmState::Creating | VmState::Destroying),
            VmState::Started => matches!(
                self,
                VmState::Starting | VmState::Pausing | VmState::Resuming | VmState::Suspending
                    | VmState::Restoring
            ),
            VmState::Paused => matches!(
                self,
                VmState::Pausing | VmState::Resuming | VmState::Suspending
            ),
            VmState::Suspended => matches!(self, VmState::Suspending | VmState::Restoring),
            VmState::Creating => false,
            VmState::Starting => matches!(self, VmState::Created),
            VmState::Pausing => matches!(self, VmState::Started),
            VmState::Resuming => matches!(self, VmState::Paused),
            VmState::Suspending => matches!(self, VmState::Started | VmState::Paused),
            VmState::Restoring => matches!(self, VmState::Suspended),
            VmState::Destroying => matches!(
                self,
                VmState::Created | VmState::Started | VmState::Paused | VmState::Suspended
            ),
        }
    }

    /// Moves to `next`, rejecting transitions outside the state machine.
    pub fn transition(&mut self, next: VmState) -> (r: Result<(), Error>)
        ensures
            r is Ok <==> legal(*old(self), next),
            r is Ok ==> *final(self) == next,
            r is Err ==> *final(self) == *old(self) && r->Err_0 == (
            Error::InvalidStateTransition { from: *old(self), to: next }),
    {
        if self.can_transition_to(next) {
            *self = next;
            Ok(())
        } else {
            Err(Error::InvalidStateTransition { from: *self, to: next })
        }
    }

    /// The variant's name, as diagnostics print it.
    pub fn name(self) -> (s: &'static str)
        ensures
            s@ == state_name(self),
    {
        match self {
            VmState::Creating => "Creating",
            VmState::Starting => "Starting",
            VmState::Pausing => "Pausing",
            VmState::Resuming => "Resuming",
            VmState::Suspending => "Suspending",
            VmState::Restoring => "Restoring",
            VmState::Destroying => "Destroying",
            VmState::Created => "Created",
            VmState::Started => "Started",
            VmState::Paused => "Paused",
            VmState::Suspended => "Suspended",
            VmState::Destroyed => "Destroyed",
        }
    }
}

/// Every move leads from a stable state to a transitional one or back:
/// no operation begins while another is in flight.
pub proof fn law_operations_alternate(from: VmState, to: VmState)
    requires
        legal(from, to),
    ensures
        stable(from) != stable(to),
{
}

/// Nothing leaves `Destroyed`, and it is the only state that nothing leaves.
pub proof fn law_destroyed_is_final(s: VmState)
    ensures
        (s is Destroyed) <==> (forall|next: VmState| !legal(s, next)),
{
    assert(legal(VmState::Creating, VmState::Created));
    assert(legal(VmState::Starting, VmState::Created));
    assert(legal(VmState::Pausing, VmState::Started));
    assert(legal(VmState::Resuming, VmState::Paused));
    assert(legal(VmState::Suspending, VmState::Started));
    assert(legal(VmState::Restoring, VmState::Suspended));
    assert(legal(VmState::Destroying, VmState::Destroyed));
    assert(legal(VmState::Created, VmState::Destroying));
    assert(legal(VmState::Started, VmState::Destroying));
    assert(legal(VmState::Paused, VmState::Destroying));
    assert(legal(VmState::Suspended, VmState::Destroying));
}

/// A failed operation can fall back to the state it began in, and to no state
/// in which it cannot begin again.
pub proof fn law_rollback_allows_retry(from: VmState, op: VmState, back: VmState)
    requires
        may_begin(from, op),
        !(op is Destroying),
    ensures
        legal(op, from),
        rolls_back(op, back) ==> may_begin(back, op),
{
}

/// Every live stable state can be destroyed in two moves.
pub proof fn law_every_live_vm_can_be_destroyed(s: VmState)
    requires
        stable(s),
        !(s is Destroyed),
    ensures
        legal(s, VmState::Destroying),
        legal(VmState::Destroying, VmState::Destroyed),
{
}

} // verus!

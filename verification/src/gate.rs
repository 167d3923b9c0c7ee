//! The concurrency gate: a pool of permits that bounds how many sessions
//! use the store at once.
//!
//! The pool is sized when it is made. A read takes one permit and shares
//! the store with other reads; a write takes the store for itself. A gate
//! never waits: it grants or refuses, and the caller that is refused may
//! ask again until its patience ends.

use vstd::prelude::*;
use crate::error::DataError;

verus! {

/// How an operation uses the store.
#[derive(Debug, Clone, Copy, PartialEq, Eq, Structural)]
pub enum Access {
    /// Shared with other reads.
    Read,
    /// To the exclusion of everyone else.
    Write,
}

/// The operations of the storage engine.
#[derive(Debug, Clone, Copy, PartialEq, Eq, Structural)]
pub enum Operation {
    Migrate,
    AddUser,
    AddGroup,
    AddUserToGroup,
    AddExpense,
    GetUser,
    GetGroup,
    GetGroupMembers,
    GetExpenses,
    GetShares,
    RemoveUserFromGroup,
    DeleteGroup,
    DeleteUser,
    DeleteExpense,
    GetMembership,
}

impl Operation {
    /// The operation changes nothing in the store.
    pub open spec fn is_query(self) -> bool {
        self is GetUser || self is GetGroup || self is GetGroupMembers || self is GetExpenses
            || self is GetShares || self is GetMembership
    }

    /// The permit that the operation has to hold: a shared one for a query,
    /// an exclusive one for everything that writes.
    pub fn access(self) -> (access: Access)
        ensures
            access == if self.is_query() {
                Access::Read
            } else {
                Access::Write
            },
    {
        match self {
            Operation::GetUser => Access::Read,
            Operation::GetGroup => Access::Read,
            Operation::GetGroupMembers => Access::Read,
            Operation::GetExpenses => Access::Read,
            Operation::GetShares => Access::Read,
            Operation::GetMembership => Access::Read,
            _ => Access::Write,
        }
    }
}

/// The state of a gate: its size, the read permits that are out, and
/// whether the write permit is out.
pub struct GateState {
    pub max_readers: nat,
    pub readers: nat,
    pub writer: bool,
}

impl GateState {
    /// The pool has at least one permit, no more read permits are out than
    /// it has, and while the write permit is out no read permit is.
    pub open spec fn wf(self) -> bool {
        &&& self.max_readers >= 1
        &&& self.readers <= self.max_readers
        &&& self.writer ==> self.readers == 0
    }

    /// No permit is out.
    pub open spec fn idle(self) -> bool {
        self.readers == 0 && !self.writer
    }

    /// A permit for `access` can be granted now: for a read, no write is in
    /// progress and a permit is left; for a write, nothing is in progress.
    pub open spec fn admits(self, access: Access) -> bool {
        match access {
            Access::Read => !self.writer && self.readers < self.max_readers,
            Access::Write => !self.writer && self.readers == 0,
        }
    }

    /// A permit for `access` is out.
    pub open spec fn holds(self, access: Access) -> bool {
        match access {
            Access::Read => self.readers > 0,
            Access::Write => self.writer,
        }
    }

    /// The state after a permit for `access` was granted.
    pub open spec fn granted(self, access: Access) -> GateState {
        match access {
            Access::Read => GateState { readers: self.readers + 1, ..self },
            Access::Write => GateState { writer: true, ..self },
        }
    }

    /// The state after a permit for `access` came back.
    pub open spec fn released(self, access: Access) -> GateState {
        match access {
            Access::Read => GateState { readers: (self.readers - 1) as nat, ..self },
            Access::Write => GateState { writer: false, ..self },
        }
    }
}

/// The permit pool of one store.
pub struct Gate {
    max_readers: u32,
    readers: u32,
    writer: bool,
}

impl View for Gate {
    type V = GateState;

    closed spec fn view(&self) -> GateState {
        GateState {
            max_readers: self.max_readers as nat,
            readers: self.readers as nat,
            writer: self.writer,
        }
    }
}

impl Gate {
    /// A gate with `readers` permits, all of them free. A gate without
    /// permits would admit nobody, so `readers` must not be 0.
    pub fn new(readers: u32) -> (gate: Result<Gate, DataError>)
        ensures
            match gate {
                Ok(gate) => readers > 0 && gate@.wf() && gate@.idle() && gate@.max_readers == readers,
                Err(e) => readers == 0 && e == DataError::InvalidInput,
            },
    {
        if readers == 0 {
            Err(DataError::InvalidInput)
        } else {
            Ok(Gate { max_readers: readers, readers: 0, writer: false })
        }
    }

    /// Takes a permit for `access` if one can be granted. A gate that is
    /// busy refuses with a failure of the engine and stays as it is; that
    /// is what a caller reports whose wait for a permit ran out.
    pub fn acquire(&mut self, access: Access) -> (permit: Result<(), DataError>)
        requires
            old(self)@.wf(),
        ensures
            final(self)@.wf(),
            match permit {
                Ok(()) => old(self)@.admits(access) && final(self)@ == old(self)@.granted(access),
                Err(e) => !old(self)@.admits(access) && e == DataError::IoOrEngineFailure && final(self)@ == old(self)@,
            },
    {
        match access {
            Access::Read => {
                if self.writer || self.readers >= self.max_readers {
                    return Err(DataError::IoOrEngineFailure);
                }
                self.readers = self.readers + 1;
            },
            Access::Write => {
                if self.writer || self.readers > 0 {
                    return Err(DataError::IoOrEngineFailure);
                }
                self.writer = true;
            },
        }
        Ok(())
    }

    /// Gives a permit for `access` back. Where no such permit is out the
    /// gate stays as it is and says so.
    pub fn release(&mut self, access: Access) -> (released: bool)
        requires
            old(self)@.wf(),
        ensures
            final(self)@.wf(),
            released == old(self)@.holds(access),
            released ==> final(self)@ == old(self)@.released(access),
            !released ==> final(self)@ == old(self)@,
    {
        match access {
            Access::Read => {
                if self.readers == 0 {
                    return false;
                }
                self.readers = self.readers - 1;
            },
            Access::Write => {
                if !self.writer {
                    return false;
                }
                self.writer = false;
            },
        }
        true
    }

    /// Whether no permit is out.
    pub fn is_idle(&self) -> (idle: bool)
        ensures
            idle == self@.idle(),
    {
        self.readers == 0 && !self.writer
    }
}

/// A permit that is granted and then given back leaves a gate as it was.
pub proof fn lemma_release_undoes_acquire(gate: GateState, access: Access)
    requires
        gate.wf(),
        gate.admits(access),
    ensures
        gate.granted(access).wf(),
        gate.granted(access).holds(access),
        gate.granted(access).released(access) == gate,
{
}

/// While a write is in progress a gate admits nobody, and while any read
/// is in progress it admits no write.
pub proof fn lemma_writes_exclude(gate: GateState, access: Access)
    requires
        gate.wf(),
    ensures
        gate.writer ==> !gate.admits(access),
        gate.readers > 0 ==> !gate.admits(Access::Write),
        gate.readers == gate.max_readers ==> !gate.admits(Access::Read),
{
}

} // verus!

//! What a call may do to a lock, as a part of its header.
//!
//! Verus keeps account of the invariants that a function opens, and checks that no
//! function calls one that may open more than it may open itself. This library opens no
//! invariants and uses the account for something else: an [`Effect`] stands for one of
//! the things that can be done to a lock, and `opens_invariants` in the header of a
//! function lists all that it may do. What a contract says of the result and this list
//! together say what a call does and that it does nothing else. A function that calls
//! code of its caller cannot have such a list.
use vstd::prelude::*;

verus! {

/// One of the things that can be done to a lock.
pub enum Effect {
    /// Locks the value for reading, waiting as long as it takes.
    Read,
    /// Tries to lock the value for reading.
    TryRead,
    /// Locks the value for writing, waiting as long as it takes.
    Write,
    /// Tries to lock the value for writing.
    TryWrite,
    /// Locks the mutex around the bookkeeping.
    Mutex,
    /// Waits at the bookkeeping.
    Wait,
    /// Wakes threads that wait at the bookkeeping.
    Wake,
    /// Counts a reader.
    Enter,
    /// Counts a write attempt.
    Begin,
    /// Looks at the bookkeeping.
    Look,
}

impl Effect {
    /// The number that stands for the effect.
    pub open spec fn name(self) -> int {
        match self {
            Effect::Read => 0,
            Effect::TryRead => 1,
            Effect::Write => 2,
            Effect::TryWrite => 3,
            Effect::Mutex => 4,
            Effect::Wait => 5,
            Effect::Wake => 6,
            Effect::Enter => 7,
            Effect::Begin => 8,
            Effect::Look => 9,
        }
    }
}

} // verus!

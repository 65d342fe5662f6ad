//! What is under way: a read guard in its place in the count of readers, a write attempt,
//! a collection of the queue.
//!
//! Each of them can only be made with a ticket, which only the step that begins it makes,
//! and ended only by using the ticket up. So whatever begins ends once, at the latest
//! when it is dropped.
use vstd::prelude::*;

use crate::inner::InnerView;
use crate::section::{Attempt, Collection, Counted};
use crate::state::{reopen_steps, update_steps, win_steps, LockState};
use crate::trace::did;

verus! {

/// The place of a read guard in the count of readers, which it gives up when it is
/// dropped.
pub struct Place<'a> {
    state: &'a LockState,
    counted: Option<Counted>,
}

impl<'a> Place<'a> {
    #[verifier::type_invariant]
    spec fn matches_state(self) -> bool {
        self.counted is Some ==> self.counted->0.state() == *self.state
    }

    /// The state that the reader is counted in.
    pub closed spec fn state(self) -> LockState {
        *self.state
    }

    /// Whether there is a place to give up.
    pub closed spec fn counted(self) -> bool {
        self.counted is Some
    }

    /// The place of a reader that is counted in `state`.
    pub(crate) fn new(state: &'a LockState, counted: Counted) -> (r: Self)
        requires
            counted.state() == *state,
        ensures
            r.counted(),
            r.state() == *state,
        opens_invariants none
    {
        Place { state, counted: Some(counted) }
    }

    /// The state that the reader is counted in.
    pub(crate) fn shared(&self) -> (r: &'a LockState)
        ensures
            *r == self.state(),
    {
        self.state
    }

    /// Leaves it to the caller to give the place up.
    pub(crate) fn leave(self) -> (r: (&'a LockState, Counted))
        requires
            self.counted(),
        ensures
            *r.0 == self.state(),
            r.1.state() == self.state(),
    {
        proof {
            use_type_invariant(&self);
        }
        let mut place = self;
        let mut counted: Option<Counted> = None;
        core::mem::swap(&mut counted, &mut place.counted);
        (place.state, counted.unwrap())
    }
}

impl<'a> Drop for Place<'a> {
    fn drop(&mut self)
        ensures
            old(self).counted() ==> exists|before: InnerView|
                did(old(self).state(), #[trigger] update_steps(before, before.reader_left())),
        opens_invariants none
        no_unwind
    {
        proof {
            use_type_invariant(&*self);
        }
        let mut counted: Option<Counted> = None;
        core::mem::swap(&mut counted, &mut self.counted);
        if let Some(counted) = counted {
            self.state.forget_reader(counted);
        }
    }
}

/// A write attempt under way, which is given up when it is dropped.
pub struct Trying<'a> {
    state: &'a LockState,
    attempt: Option<Attempt>,
}

impl<'a> Trying<'a> {
    #[verifier::type_invariant]
    spec fn matches_state(self) -> bool {
        self.attempt is Some ==> self.attempt->0.state() == *self.state
    }

    /// The state that the attempt is counted in.
    pub closed spec fn state(self) -> LockState {
        *self.state
    }

    /// Whether the attempt is still counted.
    pub closed spec fn counted(self) -> bool {
        self.attempt is Some
    }

    /// An attempt that is counted in `state`.
    pub(crate) fn new(state: &'a LockState, attempt: Attempt) -> (r: Self)
        requires
            attempt.state() == *state,
        ensures
            r.counted(),
            r.state() == *state,
        opens_invariants none
    {
        Trying { state, attempt: Some(attempt) }
    }

    /// Leaves it to the caller to end the attempt.
    pub(crate) fn leave(self) -> (r: (&'a LockState, Attempt))
        requires
            self.counted(),
        ensures
            *r.0 == self.state(),
            r.1.state() == self.state(),
        opens_invariants none
    {
        proof {
            use_type_invariant(&self);
        }
        let mut trying = self;
        let mut attempt: Option<Attempt> = None;
        core::mem::swap(&mut attempt, &mut trying.attempt);
        match attempt {
            Some(attempt) => (trying.state, attempt),
            None => vstd::pervasive::unreached(),
        }
    }
}

impl<'a> Drop for Trying<'a> {
    fn drop(&mut self)
        ensures
            old(self).counted() ==> exists|before: InnerView|
                did(old(self).state(), #[trigger] win_steps(before)),
        opens_invariants none
        no_unwind
    {
        proof {
            use_type_invariant(&*self);
        }
        let mut attempt: Option<Attempt> = None;
        core::mem::swap(&mut attempt, &mut self.attempt);
        if let Some(attempt) = attempt {
            self.state.forget_attempt(attempt);
        }
    }
}

/// A collection of the queue under way. Write attempts are let in again when it is
/// dropped.
pub struct Collecting<'a> {
    state: &'a LockState,
    collection: Option<Collection>,
}

impl<'a> Collecting<'a> {
    #[verifier::type_invariant]
    spec fn matches_state(self) -> bool {
        self.collection is Some ==> self.collection->0.state() == *self.state
    }

    /// The state whose queue was collected.
    pub closed spec fn state(self) -> LockState {
        *self.state
    }

    /// Whether write attempts are still to be let in again.
    pub closed spec fn open(self) -> bool {
        self.collection is Some
    }

    /// A collection of the queue of `state`.
    pub(crate) fn new(state: &'a LockState, collection: Collection) -> (r: Self)
        requires
            collection.state() == *state,
        ensures
            r.open(),
            r.state() == *state,
        opens_invariants none
    {
        Collecting { state, collection: Some(collection) }
    }

    /// Leaves it to the caller to let write attempts in again.
    pub(crate) fn leave(self) -> (r: (&'a LockState, Collection))
        requires
            self.open(),
        ensures
            *r.0 == self.state(),
            r.1.state() == self.state(),
        opens_invariants none
    {
        proof {
            use_type_invariant(&self);
        }
        let mut collecting = self;
        let mut collection: Option<Collection> = None;
        core::mem::swap(&mut collection, &mut collecting.collection);
        match collection {
            Some(collection) => (collecting.state, collection),
            None => vstd::pervasive::unreached(),
        }
    }
}

impl<'a> Drop for Collecting<'a> {
    fn drop(&mut self)
        ensures
            old(self).open() ==> exists|before: InnerView|
                did(old(self).state(), #[trigger] reopen_steps(before)),
        opens_invariants none
        no_unwind
    {
        proof {
            use_type_invariant(&*self);
        }
        let mut collection: Option<Collection> = None;
        core::mem::swap(&mut collection, &mut self.collection);
        if let Some(collection) = collection {
            self.state.forget_collection(collection);
        }
    }
}

} // verus!

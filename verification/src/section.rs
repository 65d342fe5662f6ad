//! What can be done to the bookkeeping while its mutex is locked.
//!
//! This is the only module that gets at what the mutex protects, and it cannot lock the
//! mutex. Each function makes one change. What begins something gives out a ticket, and
//! what ends it uses the ticket up: a reader is counted down once, an attempt ends once,
//! and the queue is taken only by who began to collect it.
use vstd::prelude::*;

use crate::callback::{boxes, QueuedCallback};
use crate::effect::Effect;
use crate::held::{contents, mutex_of, HeldInner};
use crate::inner::Inner;
use crate::state::LockState;
use crate::trace::Writer;

verus! {

/// Leave to get at what the mutex protects. Only this module has it.
pub struct ChangeKey {
    private: (),
}

/// A reader that is counted. Only the step that counts a reader makes one, and the
/// step that stops counting it uses it up.
pub struct Counted {
    state: Ghost<LockState>,
}

impl Counted {
    /// The state that the reader is counted in.
    pub closed spec fn state(self) -> LockState {
        self.state@
    }
}

/// A write attempt under way. Only the step that begins an attempt makes one, and the
/// step that ends it uses it up.
pub struct Attempt {
    state: Ghost<LockState>,
}

impl Attempt {
    /// The state that the attempt is counted in.
    pub closed spec fn state(self) -> LockState {
        self.state@
    }
}

/// A collection of the queue that has begun. Only the steps that close the queue make
/// one, and the step that takes the queue uses it up.
pub struct Closing {
    state: Ghost<LockState>,
}

impl Closing {
    /// The state whose queue is to be collected.
    pub closed spec fn state(self) -> LockState {
        self.state@
    }
}

/// A collection of the queue under way. Only the step that takes the queue makes one,
/// and the step that lets write attempts in again uses it up.
pub struct Collection {
    state: Ghost<LockState>,
}

impl Collection {
    /// The state whose queue was collected.
    pub closed spec fn state(self) -> LockState {
        self.state@
    }
}

impl<'a> HeldInner<'a> {
    /// Counts a write attempt that begins.
    pub(crate) fn begin_attempt(&mut self, state: &LockState) -> (r: Attempt)
        requires
            mutex_of(*old(self)) == state.mutex(),
        ensures
            r.state() == *state,
            mutex_of(*final(self)) == mutex_of(*old(self)),
            contents(*final(self))@ == contents(*old(self))@.attempt_begun(),
        opens_invariants [Effect::Begin.name()]
    {
        self.open(&ChangeKey { private: () }).begin_attempt();
        Attempt { state: Ghost(*state) }
    }

    /// Ends a write attempt that got the lock. Returns whether it was the last one
    /// under way.
    pub(crate) fn win_attempt(&mut self, attempt: Attempt) -> (last: bool)
        requires
            mutex_of(*old(self)) == attempt.state().mutex(),
        ensures
            mutex_of(*final(self)) == mutex_of(*old(self)),
            contents(*final(self))@ == contents(*old(self))@.attempt_won(),
            last == (contents(*final(self)).locking == 0),
        opens_invariants none
        no_unwind
    {
        self.open(&ChangeKey { private: () }).win_attempt()
    }

    /// Ends a write attempt that did not get the lock and queues `callback` behind all
    /// others. Returns whether it was the last one under way.
    pub(crate) fn lose_attempt<C: FnOnce() + Send + 'static>(
        &mut self,
        attempt: Attempt,
        callback: C,
    ) -> (last: bool)
        requires
            mutex_of(*old(self)) == attempt.state().mutex(),
            call_requires(callback, ()),
        ensures
            mutex_of(*final(self)) == mutex_of(*old(self)),
            exists|queued: QueuedCallback| #[trigger]
                boxes(callback, queued) && contents(*final(self))@ == contents(
                    *old(self),
                )@.attempt_lost(queued),
            last == (contents(*final(self)).locking == 0),
    {
        self.open(&ChangeKey { private: () }).lose_attempt(callback)
    }

    /// Counts a new read guard.
    pub(crate) fn enter_reader(&mut self, state: &LockState) -> (r: Counted)
        requires
            mutex_of(*old(self)) == state.mutex(),
        ensures
            r.state() == *state,
            mutex_of(*final(self)) == mutex_of(*old(self)),
            contents(*final(self))@ == contents(*old(self))@.reader_entered(),
        opens_invariants [Effect::Enter.name()]
    {
        self.open(&ChangeKey { private: () }).enter_reader();
        Counted { state: Ghost(*state) }
    }

    /// Stops counting a read guard and leaves the queue alone.
    pub(crate) fn forget_reader(&mut self, counted: Counted)
        requires
            mutex_of(*old(self)) == counted.state().mutex(),
        ensures
            mutex_of(*final(self)) == mutex_of(*old(self)),
            contents(*final(self))@ == contents(*old(self))@.reader_left(),
        opens_invariants none
        no_unwind
    {
        self.open(&ChangeKey { private: () }).forget_reader()
    }

    /// Stops counting a read guard. Where that leaves the queue to be collected, closes
    /// it to new attempts.
    pub(crate) fn leave_reader(&mut self, counted: Counted) -> (r: Option<Closing>)
        requires
            mutex_of(*old(self)) == counted.state().mutex(),
        ensures
            mutex_of(*final(self)) == mutex_of(*old(self)),
            r is Some == contents(*old(self))@.reader_left().flush_due(),
            match r {
                Some(closing) => closing.state() == counted.state() && contents(*final(self))@
                    == contents(*old(self))@.reader_left().closed(),
                None => contents(*final(self))@ == contents(*old(self))@.reader_left(),
            },
    {
        let collect = self.open(&ChangeKey { private: () }).leave_reader();
        if collect {
            Some(Closing { state: Ghost(counted.state()) })
        } else {
            None
        }
    }

    /// Closes the queue to new attempts, for a write guard.
    pub(crate) fn close(&mut self, writer: Writer) -> (r: Closing)
        requires
            mutex_of(*old(self)) == writer.state().mutex(),
        ensures
            r.state() == writer.state(),
            mutex_of(*final(self)) == mutex_of(*old(self)),
            contents(*final(self))@ == contents(*old(self))@.closed(),
    {
        self.open(&ChangeKey { private: () }).close();
        Closing { state: Ghost(writer.state()) }
    }

    /// Takes the whole queue, oldest callback first.
    pub(crate) fn take_callbacks(&mut self, closing: Closing) -> (r: (
        Vec<QueuedCallback>,
        Collection,
    ))
        requires
            mutex_of(*old(self)) == closing.state().mutex(),
        ensures
            r.0@ == contents(*old(self))@.callbacks,
            r.1.state() == closing.state(),
            mutex_of(*final(self)) == mutex_of(*old(self)),
            contents(*final(self))@ == contents(*old(self))@.emptied(),
    {
        let callbacks = self.open(&ChangeKey { private: () }).take_callbacks();
        (callbacks, Collection { state: Ghost(closing.state()) })
    }

    /// Lets new attempts in again.
    pub(crate) fn reopen(&mut self, collection: Collection)
        requires
            mutex_of(*old(self)) == collection.state().mutex(),
        ensures
            mutex_of(*final(self)) == mutex_of(*old(self)),
            contents(*final(self))@ == contents(*old(self))@.reopened(),
        opens_invariants none
        no_unwind
    {
        self.open(&ChangeKey { private: () }).reopen()
    }

    /// What the bookkeeping holds, without the queue: `dropping`, `locking` and
    /// `readers`.
    pub(crate) fn look(&mut self) -> (r: (bool, u64, u64))
        ensures
            r.0 == contents(*old(self)).dropping,
            r.1 == contents(*old(self)).locking,
            r.2 == contents(*old(self)).readers,
            mutex_of(*final(self)) == mutex_of(*old(self)),
            contents(*final(self)) == contents(*old(self)),
        opens_invariants none
    {
        let inner: &mut Inner = self.open(&ChangeKey { private: () });
        (inner.dropping, inner.locking, inner.readers)
    }
}

} // verus!

//! The bookkeeping of a lock: what its mutex protects, and the steps taken on it.
use vstd::prelude::*;

use crate::callback::{boxes, enqueue, QueuedCallback};

verus! {

/// The bookkeeping of one lock.
///
/// The two counters have 64 bits and wrap around. In the states that the lock
/// can get into they never do: see [`crate::protocol`].
pub struct Inner {
    /// Whether a guard is collecting the queue. New attempts wait meanwhile.
    pub dropping: bool,
    /// Number of write attempts under way.
    pub locking: u64,
    /// Number of live read guards.
    pub readers: u64,
    /// The callbacks of failed write attempts, oldest first.
    pub callbacks: Vec<QueuedCallback>,
}

/// The mathematical value of [`Inner`].
#[verifier::ext_equal]
pub struct InnerView {
    pub dropping: bool,
    pub locking: u64,
    pub readers: u64,
    pub callbacks: Seq<QueuedCallback>,
}

impl View for Inner {
    type V = InnerView;

    open spec fn view(&self) -> InnerView {
        InnerView {
            dropping: self.dropping,
            locking: self.locking,
            readers: self.readers,
            callbacks: self.callbacks@,
        }
    }
}

impl InnerView {
    /// Nobody is doing anything and nothing is queued.
    pub open spec fn idle() -> InnerView {
        InnerView { dropping: false, locking: 0, readers: 0, callbacks: Seq::empty() }
    }

    /// A write attempt begins.
    pub open spec fn attempt_begun(self) -> InnerView {
        InnerView { locking: self.locking.wrapping_add(1), ..self }
    }

    /// A write attempt ends with the write lock.
    pub open spec fn attempt_won(self) -> InnerView {
        InnerView { locking: self.locking.wrapping_sub(1), ..self }
    }

    /// A write attempt ends without the write lock and leaves `callback` behind.
    pub open spec fn attempt_lost(self, callback: QueuedCallback) -> InnerView {
        InnerView {
            locking: self.locking.wrapping_sub(1),
            callbacks: self.callbacks.push(callback),
            ..self
        }
    }

    /// A read guard comes to life.
    pub open spec fn reader_entered(self) -> InnerView {
        InnerView { readers: self.readers.wrapping_add(1), ..self }
    }

    /// A read guard, already unlocked, is no longer counted.
    pub open spec fn reader_left(self) -> InnerView {
        InnerView { readers: self.readers.wrapping_sub(1), ..self }
    }

    /// Whether a reader that has just left must collect the queue: it was the
    /// last one, there is something to collect, and nobody else is at it.
    pub open spec fn flush_due(self) -> bool {
        self.readers == 0 && self.callbacks.len() > 0 && !self.dropping
    }

    /// A guard begins to collect the queue.
    pub open spec fn closed(self) -> InnerView {
        InnerView { dropping: true, ..self }
    }

    /// The queue has been taken out.
    pub open spec fn emptied(self) -> InnerView {
        InnerView { callbacks: Seq::empty(), ..self }
    }

    /// The collection is over.
    pub open spec fn reopened(self) -> InnerView {
        InnerView { dropping: false, ..self }
    }
}

impl Default for Inner {
    fn default() -> (r: Self)
        ensures
            r@ == InnerView::idle(),
    {
        Inner { dropping: false, locking: 0, readers: 0, callbacks: Vec::new() }
    }
}

impl Inner {
    /// Counts a write attempt that begins.
    pub fn begin_attempt(&mut self)
        ensures
            final(self)@ == old(self)@.attempt_begun(),
        opens_invariants none
        no_unwind
    {
        self.locking = if self.locking == u64::MAX {
            0
        } else {
            self.locking + 1
        };
    }

    /// Ends a write attempt that got the lock. Returns whether it was the last
    /// one under way, so that a waiting collector has to be woken.
    pub fn win_attempt(&mut self) -> (last: bool)
        ensures
            final(self)@ == old(self)@.attempt_won(),
            last == (final(self).locking == 0),
        opens_invariants none
        no_unwind
    {
        self.locking = if self.locking == 0 {
            u64::MAX
        } else {
            self.locking - 1
        };
        self.locking == 0
    }

    /// Ends a write attempt that did not get the lock and queues `callback`
    /// behind all others. Returns whether it was the last attempt under way.
    pub fn lose_attempt<C: FnOnce() + Send + 'static>(&mut self, callback: C) -> (last: bool)
        requires
            call_requires(callback, ()),
        ensures
            exists|queued: QueuedCallback| #[trigger]
                boxes(callback, queued) && final(self)@ == old(self)@.attempt_lost(queued),
            last == (final(self).locking == 0),
    {
        enqueue(&mut self.callbacks, callback);
        self.locking = self.locking.wrapping_sub(1);
        self.locking == 0
    }

    /// Counts a new read guard.
    pub fn enter_reader(&mut self)
        ensures
            final(self)@ == old(self)@.reader_entered(),
        opens_invariants none
        no_unwind
    {
        self.readers = if self.readers == u64::MAX {
            0
        } else {
            self.readers + 1
        };
    }

    /// Stops counting a read guard.
    pub fn forget_reader(&mut self)
        ensures
            final(self)@ == old(self)@.reader_left(),
        opens_invariants none
        no_unwind
    {
        self.readers = if self.readers == 0 {
            u64::MAX
        } else {
            self.readers - 1
        };
    }

    /// Stops counting a read guard. Where that leaves the queue to be collected,
    /// closes the queue to new attempts and returns `true`.
    pub fn leave_reader(&mut self) -> (collect: bool)
        ensures
            collect == old(self)@.reader_left().flush_due(),
            collect ==> final(self)@ == old(self)@.reader_left().closed(),
            !collect ==> final(self)@ == old(self)@.reader_left(),
    {
        self.forget_reader();
        if self.readers > 0 || self.callbacks.len() == 0 || self.dropping {
            return false;
        }
        self.dropping = true;
        true
    }

    /// Closes the queue to new attempts.
    pub fn close(&mut self)
        ensures
            final(self)@ == old(self)@.closed(),
    {
        self.dropping = true;
    }

    /// Takes the whole queue, oldest callback first.
    pub fn take_callbacks(&mut self) -> (callbacks: Vec<QueuedCallback>)
        ensures
            callbacks@ == old(self)@.callbacks,
            final(self)@ == old(self)@.emptied(),
    {
        let mut callbacks: Vec<QueuedCallback> = Vec::new();
        std::mem::swap(&mut callbacks, &mut self.callbacks);
        callbacks
    }

    /// Lets new attempts in again.
    pub fn reopen(&mut self)
        ensures
            final(self)@ == old(self)@.reopened(),
        opens_invariants none
        no_unwind
    {
        self.dropping = false;
    }
}

} // verus!

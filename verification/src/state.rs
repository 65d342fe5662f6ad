//! The state that a lock shares with its guards.
use parking_lot::{Condvar, Mutex};
use vstd::prelude::*;

use crate::callback::{boxes, makes_callback, QueuedCallback};
use crate::effect::Effect;
use crate::held::{contents, made_with, new_condvar, new_mutex, was_locked, WaitWhile};
use crate::inner::{Inner, InnerView};
use crate::place::{Collecting, Place, Trying};
use crate::section::{Attempt, Collection, Counted};
use crate::trace;
use crate::trace::{
    did, lock, make, unlock, wait_while, wake_attempts, wake_collector, Log, Step, Writer,
};

verus! {

/// The bookkeeping of a lock behind its mutex.
pub struct LockState {
    inner: Mutex<Inner>,
    /// Notified when `locking` reaches zero: collectors wait on this.
    locking_zero: Condvar,
    /// Notified when `dropping` becomes false: write attempts and write guards
    /// that go wait on this.
    not_dropping: Condvar,
}

impl LockState {
    /// The mutex around the bookkeeping.
    pub closed spec fn mutex(self) -> Mutex<Inner> {
        self.inner
    }

    /// What collectors wait on.
    pub closed spec fn locking_zero(self) -> Condvar {
        self.locking_zero
    }

    /// What write attempts wait on, and write guards that go.
    pub closed spec fn not_dropping(self) -> Condvar {
        self.not_dropping
    }

    /// What a thread waits on while `condition` holds.
    pub open spec fn condvar_for(self, condition: WaitWhile) -> Condvar {
        match condition {
            WaitWhile::Dropping => self.not_dropping(),
            WaitWhile::Locking => self.locking_zero(),
        }
    }

    /// The state is new: nothing has happened yet.
    pub open spec fn is_new(self) -> bool {
        exists|inner: Inner| #[trigger]
            made_with(self.mutex(), inner) && inner@ == InnerView::idle()
    }
}

impl Default for LockState {
    fn default() -> (r: Self)
        ensures
            r.is_new(),
    {
        let inner = Inner::default();
        let ghost idle = inner;
        let state = LockState {
            inner: new_mutex(inner),
            locking_zero: new_condvar(),
            not_dropping: new_condvar(),
        };
        assert(made_with(state.mutex(), idle));
        state
    }
}

/// What can be shown of the bookkeeping.
#[derive(Clone, Copy, Debug, PartialEq, Eq, Structural)]
pub struct Snapshot {
    pub dropping: bool,
    pub locking: u64,
    pub readers: u64,
}

/// The steps of a write attempt that begins. No collection is under way where
/// it is counted.
pub open spec fn begin_steps(before: InnerView, open: InnerView) -> Seq<Step> {
    seq![
        Step::Locked(before),
        Step::GaveUp { condition: WaitWhile::Dropping, given: before },
        Step::Regained(open),
        Step::Unlocked(open.attempt_begun()),
    ]
}

/// The steps of a write attempt that ends and leaves `after` behind. A collector
/// is woken if no other attempt is under way.
pub open spec fn end_steps(after: InnerView) -> Seq<Step> {
    if after.locking == 0 {
        seq![Step::WokeCollector, Step::Unlocked(after)]
    } else {
        seq![Step::Unlocked(after)]
    }
}

/// The steps of a write attempt that got the lock and ends.
pub open spec fn win_steps(before: InnerView) -> Seq<Step> {
    seq![Step::Locked(before)] + end_steps(before.attempt_won())
}

/// The steps of a write attempt that did not get the lock and ends. The callback
/// is made only now, under the same lock of the mutex under which it is queued.
pub open spec fn lose_steps(before: InnerView, callback: QueuedCallback) -> Seq<Step> {
    seq![Step::Locked(before), Step::MadeCallback] + end_steps(before.attempt_lost(callback))
}

/// The steps of a thread that changes the bookkeeping from `before` to `after`.
pub open spec fn update_steps(before: InnerView, after: InnerView) -> Seq<Step> {
    seq![Step::Locked(before), Step::Unlocked(after)]
}

/// The steps of a thread that changes the bookkeeping from `before` to `closed`
/// and then waits until no write attempt is under way.
pub open spec fn close_steps(before: InnerView, closed: InnerView) -> Seq<Step> {
    seq![
        Step::Locked(before),
        Step::GaveUp { condition: WaitWhile::Locking, given: closed },
    ]
}

/// The steps of a thread that has waited until no write attempt is under way and
/// takes the queue.
pub open spec fn take_steps(quiet: InnerView) -> Seq<Step> {
    seq![Step::Regained(quiet), Step::Unlocked(quiet.emptied())]
}

/// The steps of a thread that waits until no collection is under way, begins one,
/// and then waits until no write attempt is under way.
pub open spec fn patient_close_steps(before: InnerView, open: InnerView) -> Seq<Step> {
    seq![
        Step::Locked(before),
        Step::GaveUp { condition: WaitWhile::Dropping, given: before },
        Step::Regained(open),
        Step::GaveUp { condition: WaitWhile::Locking, given: open.closed() },
    ]
}

/// The steps of a thread that lets new write attempts in again.
pub open spec fn reopen_steps(before: InnerView) -> Seq<Step> {
    seq![Step::Locked(before), Step::WokeAttempts, Step::Unlocked(before.reopened())]
}

impl LockState {
    /// Waits until no collection is under way, then counts a write attempt.
    /// Both happen under one lock of the mutex.
    pub(crate) fn begin_attempt<'a>(&'a self, log: &mut Log) -> (r: Trying<'a>)
        requires
            old(log).state() == *self,
        ensures
            r.counted(),
            r.state() == *self,
            final(log).state() == *self,
            exists|before: InnerView, open: InnerView|
                !open.dropping && final(log).steps() == old(log).steps() + #[trigger] begin_steps(
                    before,
                    open,
                ),
        opens_invariants [Effect::Mutex.name(), Effect::Wait.name(), Effect::Begin.name()]
    {
        let held = lock(&self.inner, log);
        let ghost before = contents(held)@;
        let mut held = wait_while(held, self, &self.not_dropping, WaitWhile::Dropping, log);
        let ghost open = contents(held)@;
        let attempt = held.begin_attempt(self);
        unlock(held, log);
        assert(log.steps() == old(log).steps() + begin_steps(before, open));
        Trying::new(self, attempt)
    }

    /// Ends a write attempt that got the lock.
    pub(crate) fn win_attempt(&self, trying: Trying<'_>, log: &mut Log)
        requires
            trying.counted(),
            trying.state() == *self,
            old(log).state() == *self,
        ensures
            final(log).state() == *self,
            exists|before: InnerView|
                final(log).steps() == old(log).steps() + #[trigger] win_steps(before),
        opens_invariants [Effect::Mutex.name(), Effect::Wake.name()]
    {
        let (_, attempt) = trying.leave();
        let mut held = lock(&self.inner, log);
        let ghost before = contents(held)@;
        let last = held.win_attempt(attempt);
        if last {
            wake_collector(&self.locking_zero, log);
        }
        unlock(held, log);
        assert(log.steps() == old(log).steps() + win_steps(before));
    }

    /// Ends a write attempt that did not get the lock. The callback is made
    /// and queued under one lock of the mutex.
    pub(crate) fn lose_attempt<C: FnOnce() + Send + 'static, F: FnOnce() -> C>(
        &self,
        trying: Trying<'_>,
        callback: F,
        log: &mut Log,
    )
        requires
            trying.counted(),
            trying.state() == *self,
            old(log).state() == *self,
            makes_callback(callback),
        ensures
            final(log).state() == *self,
            exists|made: C, queued: QueuedCallback, before: InnerView|
                {
                    &&& #[trigger] call_ensures(callback, (), made)
                    &&& #[trigger] boxes(made, queued)
                    &&& final(log).steps() == old(log).steps() + #[trigger] lose_steps(
                        before,
                        queued,
                    )
                },
    {
        let mut held = lock(&self.inner, log);
        let ghost before = contents(held)@;
        let made = make(callback, log);
        let ghost made_callback = made;
        let (_, attempt) = trying.leave();
        let last = held.lose_attempt(attempt, made);
        let ghost after = contents(held)@;
        if last {
            wake_collector(&self.locking_zero, log);
        }
        unlock(held, log);
        proof {
            let queued = choose|queued: QueuedCallback| #[trigger]
                boxes(made_callback, queued) && after == before.attempt_lost(queued);
            assert(call_ensures(callback, (), made_callback));
            assert(boxes(made_callback, queued));
            assert(log.steps() == old(log).steps() + lose_steps(before, queued));
        }
    }

    /// Counts a new read guard and gives it its place.
    pub(crate) fn enter_reader<'a>(&'a self, log: &mut Log) -> (r: Place<'a>)
        requires
            old(log).state() == *self,
        ensures
            r.counted(),
            r.state() == *self,
            final(log).state() == *self,
            exists|before: InnerView|
                final(log).steps() == old(log).steps() + #[trigger] update_steps(
                    before,
                    before.reader_entered(),
                ),
        opens_invariants [Effect::Mutex.name(), Effect::Enter.name()]
    {
        let mut held = lock(&self.inner, log);
        let ghost before = contents(held)@;
        let counted = held.enter_reader(self);
        unlock(held, log);
        assert(log.steps() == old(log).steps() + update_steps(before, before.reader_entered()));
        Place::new(self, counted)
    }

    /// Stops counting a read guard that is already unlocked. Returns the queue
    /// where that guard has to run it.
    ///
    /// Only the last reader collects. It also leaves the queue alone while
    /// another collection is under way: that one has yet to take whatever is in
    /// the queue.
    pub(crate) fn leave_reader<'a>(&'a self, counted: Counted, log: &mut Log) -> (r: Option<
        (Vec<QueuedCallback>, Collecting<'a>),
    >)
        requires
            counted.state() == *self,
            old(log).state() == *self,
        ensures
            final(log).state() == *self,
            r matches Some((_, collecting)) ==> collecting.open() && collecting.state() == *self,
            match r {
                Some((taken, _)) => exists|before: InnerView, quiet: InnerView|
                    {
                        &&& before.reader_left().flush_due()
                        &&& quiet.locking == 0
                        &&& taken@ == quiet.callbacks
                        &&& final(log).steps() == old(log).steps() + #[trigger] close_steps(
                            before,
                            before.reader_left().closed(),
                        ) + #[trigger] take_steps(quiet)
                    },
                None => exists|before: InnerView|
                    {
                        &&& !before.reader_left().flush_due()
                        &&& final(log).steps() == old(log).steps() + #[trigger] update_steps(
                            before,
                            before.reader_left(),
                        )
                    },
            },
    {
        let mut held = lock(&self.inner, log);
        let ghost before = contents(held)@;
        match held.leave_reader(counted) {
            None => {
                unlock(held, log);
                assert(log.steps() == old(log).steps() + update_steps(
                    before,
                    before.reader_left(),
                ));
                None
            },
            Some(closing) => {
                let mut held = wait_while(held, self, &self.locking_zero, WaitWhile::Locking, log);
                let ghost quiet = contents(held)@;
                let (callbacks, collection) = held.take_callbacks(closing);
                unlock(held, log);
                assert(log.steps() == old(log).steps() + close_steps(
                    before,
                    before.reader_left().closed(),
                ) + take_steps(quiet));
                Some((callbacks, Collecting::new(self, collection)))
            },
        }
    }

    /// Stops counting a read guard that is already unlocked, and leaves the queue
    /// alone.
    pub(crate) fn forget_reader(&self, counted: Counted)
        requires
            counted.state() == *self,
        ensures
            exists|before: InnerView|
                did(*self, #[trigger] update_steps(before, before.reader_left())),
        opens_invariants none
        no_unwind
    {
        trace::forget_reader(&self.inner, self, counted)
    }

    /// Stops counting a write attempt that was given up.
    pub(crate) fn forget_attempt(&self, attempt: Attempt)
        requires
            attempt.state() == *self,
        ensures
            exists|before: InnerView| did(*self, #[trigger] win_steps(before)),
        opens_invariants none
        no_unwind
    {
        trace::forget_attempt(&self.inner, &self.locking_zero, self, attempt)
    }

    /// Lets write attempts in again after a collection that was given up.
    pub(crate) fn forget_collection(&self, collection: Collection)
        requires
            collection.state() == *self,
        ensures
            exists|before: InnerView| did(*self, #[trigger] reopen_steps(before)),
        opens_invariants none
        no_unwind
    {
        trace::forget_collection(&self.inner, &self.not_dropping, self, collection)
    }

    /// Takes the queue for a write guard that still holds its lock.
    ///
    /// A collection that is under way is waited for. Its end lets write attempts
    /// in, and if that came after this guard took the queue, an attempt that this
    /// guard turns away could leave its callback behind.
    pub(crate) fn leave_writer<'a>(&'a self, writer: Writer, log: &mut Log) -> (r: (
        Vec<QueuedCallback>,
        Collecting<'a>,
    ))
        requires
            writer.state() == *self,
            old(log).state() == *self,
        ensures
            final(log).state() == *self,
            r.1.open(),
            r.1.state() == *self,
            exists|before: InnerView, open: InnerView, quiet: InnerView|
                {
                    &&& !open.dropping
                    &&& quiet.locking == 0
                    &&& r.0@ == quiet.callbacks
                    &&& final(log).steps() == old(log).steps() + #[trigger] patient_close_steps(
                        before,
                        open,
                    ) + #[trigger] take_steps(quiet)
                },
    {
        let held = lock(&self.inner, log);
        let ghost before = contents(held)@;
        let mut held = wait_while(held, self, &self.not_dropping, WaitWhile::Dropping, log);
        let ghost open = contents(held)@;
        let closing = held.close(writer);
        let mut held = wait_while(held, self, &self.locking_zero, WaitWhile::Locking, log);
        let ghost quiet = contents(held)@;
        let (callbacks, collection) = held.take_callbacks(closing);
        unlock(held, log);
        assert(log.steps() == old(log).steps() + patient_close_steps(before, open) + take_steps(
            quiet,
        ));
        (callbacks, Collecting::new(self, collection))
    }

    /// Lets new write attempts in again and wakes those that wait.
    pub(crate) fn reopen(&self, collecting: Collecting<'_>, log: &mut Log)
        requires
            collecting.open(),
            collecting.state() == *self,
            old(log).state() == *self,
        ensures
            final(log).state() == *self,
            exists|before: InnerView|
                final(log).steps() == old(log).steps() + #[trigger] reopen_steps(before),
    {
        let (_, collection) = collecting.leave();
        let mut held = lock(&self.inner, log);
        let ghost before = contents(held)@;
        held.reopen(collection);
        wake_attempts(&self.not_dropping, log);
        unlock(held, log);
        assert(log.steps() == old(log).steps() + reopen_steps(before));
    }

    /// What the bookkeeping holds, or `None` while another thread is at it.
    pub fn snapshot(&self) -> (r: Option<Snapshot>)
        ensures
            match r {
                Some(shown) => exists|before: InnerView| #[trigger]
                    did(*self, update_steps(before, before)) && shown == (Snapshot {
                        dropping: before.dropping,
                        locking: before.locking,
                        readers: before.readers,
                    }),
                None => was_locked(self.mutex()),
            },
        opens_invariants [Effect::Look.name()]
    {
        match trace::look(&self.inner, self) {
            Some((dropping, locking, readers)) => Some(Snapshot { dropping, locking, readers }),
            None => None,
        }
    }
}

} // verus!

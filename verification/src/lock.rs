//! The lock itself.
use parking_lot::RwLock;
use vstd::prelude::*;

use crate::callback::{boxes, makes_callback, QueuedCallback};
use crate::effect::Effect;
use crate::guard::{RwLockNotifyReadGuard, RwLockNotifyWriteGuard};
use crate::held::{
    into_inner, lock_made_with, new_rwlock, unwrapped_from, HeldRead, HeldWrite,
};
use crate::inner::InnerView;
use crate::state::{begin_steps, lose_steps, update_steps, win_steps, LockState};
use crate::trace::{
    did, id_of, lock_read, lock_write, try_lock_read, try_lock_write, GuardId, Log, Step,
};

verus! {

/// An [`RwLock`] around a value that runs registered callbacks when a guard is
/// released.
///
/// When [`try_write_or`] cannot lock the value, the callback is queued. All
/// queued callbacks are run in the order in which they were queued, with nothing
/// locked, when the next write guard or last read guard is released.
///
/// [`try_write_or`]: RwLockNotify::try_write_or
#[verifier::reject_recursive_types(T)]
pub struct RwLockNotify<T> {
    lock: RwLock<T>,
    state: LockState,
}

/// Leave to take the steps of one call. Only a call on a lock makes one: for itself, and
/// for the release of the guard that it returns.
pub struct Turn {
    private: (),
}

/// The steps of a write attempt that gets the lock.
pub open spec fn won_steps(
    guard: GuardId,
    before: InnerView,
    open: InnerView,
    later: InnerView,
) -> Seq<Step> {
    begin_steps(before, open) + seq![Step::LockedWrite(guard)] + win_steps(later)
}

/// The steps of a write attempt that does not get the lock and queues `callback`.
pub open spec fn lost_steps(
    before: InnerView,
    open: InnerView,
    later: InnerView,
    callback: QueuedCallback,
) -> Seq<Step> {
    begin_steps(before, open) + seq![Step::Refused] + lose_steps(later, callback)
}

/// The steps of a thread that gets a read guard.
pub open spec fn read_steps(guard: GuardId, before: InnerView) -> Seq<Step> {
    seq![Step::LockedRead(guard)] + update_steps(before, before.reader_entered())
}

/// A write attempt on `lock` got the write lock as `guard`. No callback was made or
/// queued: the attempt was counted while it was under way, and nothing else.
pub open spec fn attempt_succeeded<T>(
    lock: RwLockNotify<T>,
    guard: RwLockNotifyWriteGuard<'_, T>,
) -> bool {
    &&& guard.came_from(lock)
    &&& guard.lock_state() == lock.lock_state()
    &&& exists|before: InnerView, open: InnerView, later: InnerView|
        !open.dropping && did(
            lock.lock_state(),
            #[trigger] won_steps(id_of(guard.held()), before, open, later),
        )
}

/// A write attempt on `lock` was refused the write lock, and `callback` was queued
/// behind all others.
pub open spec fn attempt_failed<T, C: FnOnce() + Send + 'static>(
    lock: RwLockNotify<T>,
    callback: C,
) -> bool {
    &&& HeldWrite::<'_, T>::refused_by(lock.value_lock())
    &&& exists|queued: QueuedCallback, before: InnerView, open: InnerView, later: InnerView|
        {
            &&& #[trigger] boxes(callback, queued)
            &&& !open.dropping
            &&& did(lock.lock_state(), #[trigger] lost_steps(before, open, later, queued))
        }
}

/// `r` came of a write attempt on `lock` with `callback`.
pub open spec fn attempted<T, C: FnOnce() + Send + 'static>(
    lock: RwLockNotify<T>,
    callback: C,
    r: Option<RwLockNotifyWriteGuard<'_, T>>,
) -> bool {
    match r {
        Some(guard) => attempt_succeeded(lock, guard),
        None => attempt_failed(lock, callback),
    }
}

/// `r` came of a write attempt on `lock` with a callback that `maker` makes where
/// one is needed.
pub open spec fn attempted_with<T, C: FnOnce() + Send + 'static, F: FnOnce() -> C>(
    lock: RwLockNotify<T>,
    maker: F,
    r: Option<RwLockNotifyWriteGuard<'_, T>>,
) -> bool {
    match r {
        Some(guard) => attempt_succeeded(lock, guard),
        None => exists|made: C| #[trigger]
            call_ensures(maker, (), made) && attempt_failed(lock, made),
    }
}

/// A write attempt with a callback is a write attempt with a maker that returns that
/// callback: the two get the lock alike, and leave alike what they leave behind.
pub proof fn law_attempts_agree<T, C: FnOnce() + Send + 'static, F: FnOnce() -> C>(
    lock: RwLockNotify<T>,
    callback: C,
    maker: F,
    r: Option<RwLockNotifyWriteGuard<'_, T>>,
)
    requires
        call_ensures(maker, (), callback),
        forall|made: C| #[trigger] call_ensures(maker, (), made) ==> made == callback,
    ensures
        attempted(lock, callback, r) <==> attempted_with(lock, maker, r),
{
}

impl<T> RwLockNotify<T> {
    /// The lock around the value.
    pub closed spec fn value_lock(self) -> RwLock<T> {
        self.lock
    }

    /// The state that the lock shares with its guards.
    pub closed spec fn lock_state(self) -> LockState {
        self.state
    }

    /// Makes a lock around `value`.
    #[must_use]
    pub fn new(value: T) -> (r: Self)
        ensures
            lock_made_with(r.value_lock(), value),
            r.lock_state().is_new(),
    {
        Self::from_lock(new_rwlock(value))
    }

    /// Makes a lock out of an existing [`RwLock`].
    #[must_use]
    pub fn from_lock(lock: RwLock<T>) -> (r: Self)
        ensures
            r.value_lock() == lock,
            r.lock_state().is_new(),
    {
        RwLockNotify { lock, state: LockState::default() }
    }

    /// Takes the lock apart and returns the value.
    ///
    /// Callbacks in the queue are dropped and not run.
    #[must_use]
    pub fn into_inner(self) -> (r: T)
        ensures
            unwrapped_from(r, self.value_lock()),
        opens_invariants none
    {
        into_inner(self.lock)
    }

    /// The state that the lock shares with its guards.
    pub fn state(&self) -> (r: &LockState)
        ensures
            *r == self.lock_state(),
        opens_invariants none
    {
        &self.state
    }

    /// A look at the value, if that can be had without waiting. It is no read
    /// guard: it is not counted, and when it goes no callback is run.
    pub fn peek(&self) -> (r: Option<HeldRead<'_, T>>)
        ensures
            match r {
                Some(held) => {
                    &&& held.definite()
                    &&& held.came_from(self.value_lock())
                    &&& did(self.lock_state(), seq![Step::LockedRead(id_of(held))])
                },
                None => {
                    &&& HeldRead::<'_, T>::refused_by(self.value_lock())
                    &&& did(self.lock_state(), seq![Step::Refused])
                },
            },
        opens_invariants [Effect::TryRead.name()]
    {
        let mut log = Log::begin(&self.state, Turn { private: () });
        let r = try_lock_read(&self.lock, &mut log);
        assert(log.steps() == match r {
            Some(held) => seq![Step::LockedRead(id_of(held))],
            None => seq![Step::Refused],
        });
        log.finish();
        r
    }

    /// Locks the value for shared read access, waiting as long as it takes.
    #[must_use]
    pub fn read(&self) -> (r: RwLockNotifyReadGuard<'_, T>)
        ensures
            r.came_from(*self),
            r.lock_state() == self.lock_state(),
            exists|before: InnerView|
                did(self.lock_state(), #[trigger] read_steps(id_of(r.held()), before)),
        opens_invariants [Effect::Read.name(), Effect::Mutex.name(), Effect::Enter.name()]
    {
        let mut log = Log::begin(&self.state, Turn { private: () });
        let guard = lock_read(&self.lock, &mut log);
        let ghost locked = log.steps();
        let place = self.state.enter_reader(&mut log);
        proof {
            let before = choose|before: InnerView|
                log.steps() == locked + #[trigger] update_steps(before, before.reader_entered());
            assert(log.steps() == read_steps(id_of(guard), before));
        }
        log.finish();
        RwLockNotifyReadGuard::new(guard, place, Turn { private: () }, self)
    }

    /// Locks the value for shared read access if that can be done without
    /// waiting.
    #[must_use]
    pub fn try_read(&self) -> (r: Option<RwLockNotifyReadGuard<'_, T>>)
        ensures
            match r {
                Some(guard) => {
                    &&& guard.came_from(*self)
                    &&& guard.lock_state() == self.lock_state()
                    &&& exists|before: InnerView|
                        did(self.lock_state(), #[trigger] read_steps(id_of(guard.held()), before))
                },
                None => {
                    &&& HeldRead::<'_, T>::refused_by(self.value_lock())
                    &&& did(self.lock_state(), seq![Step::Refused])
                },
            },
        opens_invariants [Effect::TryRead.name(), Effect::Mutex.name(), Effect::Enter.name()]
    {
        let mut log = Log::begin(&self.state, Turn { private: () });
        match try_lock_read(&self.lock, &mut log) {
            Some(guard) => {
                let ghost locked = log.steps();
                let place = self.state.enter_reader(&mut log);
                proof {
                    let before = choose|before: InnerView|
                        log.steps() == locked + #[trigger] update_steps(
                            before,
                            before.reader_entered(),
                        );
                    assert(log.steps() == read_steps(id_of(guard), before));
                }
                log.finish();
                Some(RwLockNotifyReadGuard::new(guard, place, Turn { private: () }, self))
            },
            None => {
                assert(log.steps() == seq![Step::Refused]);
                log.finish();
                None
            },
        }
    }

    /// Locks the value for exclusive write access, waiting as long as it takes.
    ///
    /// Callbacks that [`try_write_or`](RwLockNotify::try_write_or) queues while
    /// the guard is held are run when the guard is released.
    #[must_use]
    pub fn write(&self) -> (r: RwLockNotifyWriteGuard<'_, T>)
        ensures
            r.came_from(*self),
            r.lock_state() == self.lock_state(),
            did(self.lock_state(), seq![Step::LockedWrite(id_of(r.held()))]),
        opens_invariants [Effect::Write.name()]
    {
        let mut log = Log::begin(&self.state, Turn { private: () });
        let (guard, writer) = lock_write(&self.lock, &mut log);
        assert(log.steps() == seq![Step::LockedWrite(id_of(guard))]);
        log.finish();
        RwLockNotifyWriteGuard::new(guard, &self.state, writer, Turn { private: () }, self)
    }

    /// Locks the value for exclusive write access if that can be done without
    /// waiting. No callback is queued where it cannot.
    #[must_use]
    pub fn try_write(&self) -> (r: Option<RwLockNotifyWriteGuard<'_, T>>)
        ensures
            match r {
                Some(guard) => {
                    &&& guard.came_from(*self)
                    &&& guard.lock_state() == self.lock_state()
                    &&& did(self.lock_state(), seq![Step::LockedWrite(id_of(guard.held()))])
                },
                None => {
                    &&& HeldWrite::<'_, T>::refused_by(self.value_lock())
                    &&& did(self.lock_state(), seq![Step::Refused])
                },
            },
        opens_invariants [Effect::TryWrite.name()]
    {
        let mut log = Log::begin(&self.state, Turn { private: () });
        match try_lock_write(&self.lock, &mut log) {
            Some((guard, writer)) => {
                assert(log.steps() == seq![Step::LockedWrite(id_of(guard))]);
                log.finish();
                let turn = Turn { private: () };
                Some(RwLockNotifyWriteGuard::new(guard, &self.state, writer, turn, self))
            },
            None => {
                assert(log.steps() == seq![Step::Refused]);
                log.finish();
                None
            },
        }
    }

    /// Locks the value for exclusive write access if that can be done without
    /// waiting; else makes a callback and queues it behind all others.
    ///
    /// `callback` is called only where the lock is not to be had, and then under
    /// the mutex of the lock: it must not use the lock itself. Where the lock is to
    /// be had, neither `callback` nor anything it would make has to be callable.
    #[must_use]
    pub fn try_write_or_else<'a, Callback>(
        &'a self,
        callback: impl FnOnce() -> Callback,
    ) -> (r: Option<RwLockNotifyWriteGuard<'a, T>>) where Callback: FnOnce() + Send + 'static
        requires
            HeldWrite::<'a, T>::refused_by(self.value_lock()) ==> makes_callback(callback),
        ensures
            attempted_with(*self, callback, r),
    {
        let mut log = Log::begin(&self.state, Turn { private: () });
        let trying = self.state.begin_attempt(&mut log);
        let ghost begun = log.steps();
        let ghost (before, open) = choose|before: InnerView, open: InnerView|
            !open.dropping && begun == Seq::<Step>::empty() + #[trigger] begin_steps(before, open);
        match try_lock_write(&self.lock, &mut log) {
            Some((guard, writer)) => {
                let ghost locked = log.steps();
                self.state.win_attempt(trying, &mut log);
                proof {
                    let later = choose|later: InnerView|
                        log.steps() == locked + #[trigger] win_steps(later);
                    assert(log.steps() == won_steps(id_of(guard), before, open, later));
                }
                log.finish();
                let turn = Turn { private: () };
                Some(RwLockNotifyWriteGuard::new(guard, &self.state, writer, turn, self))
            },
            None => {
                let ghost refused = log.steps();
                self.state.lose_attempt(trying, callback, &mut log);
                proof {
                    let (made, queued, later) = choose|
                        made: Callback,
                        queued: QueuedCallback,
                        later: InnerView,
                    |
                        {
                            &&& #[trigger] call_ensures(callback, (), made)
                            &&& #[trigger] boxes(made, queued)
                            &&& log.steps() == refused + #[trigger] lose_steps(later, queued)
                        };
                    assert(log.steps() == lost_steps(before, open, later, queued));
                }
                log.finish();
                None
            },
        }
    }

    /// Locks the value for exclusive write access if that can be done without
    /// waiting; else queues `callback` behind all others. Where the lock is to be had,
    /// `callback` is dropped, and does not have to be callable.
    #[must_use]
    pub fn try_write_or<'a, Callback>(&'a self, callback: Callback) -> (r: Option<
        RwLockNotifyWriteGuard<'a, T>,
    >) where Callback: FnOnce() + Send + 'static
        requires
            HeldWrite::<'a, T>::refused_by(self.value_lock()) ==> call_requires(callback, ()),
        ensures
            attempted(*self, callback, r),
    {
        let keep = || -> (made: Callback)
            ensures
                made == callback,
            { callback };
        self.try_write_or_else(keep)
    }
}

impl<T> From<T> for RwLockNotify<T> {
    fn from(value: T) -> (r: Self)
        ensures
            lock_made_with(r.value_lock(), value),
            r.lock_state().is_new(),
    {
        Self::new(value)
    }
}

/// Two locks made around one value are not the same lock, so no function from
/// the value to the lock is named here: the clauses of `from` say what it does.
impl<T> vstd::std_specs::convert::FromSpecImpl<T> for RwLockNotify<T> {
    open spec fn obeys_from_spec() -> bool {
        false
    }

    open spec fn from_spec(value: T) -> Self {
        arbitrary()
    }
}

impl<T> From<RwLock<T>> for RwLockNotify<T> {
    fn from(lock: RwLock<T>) -> (r: Self)
        ensures
            r.value_lock() == lock,
            r.lock_state().is_new(),
    {
        Self::from_lock(lock)
    }
}

/// As for a value: the clauses of `from` say what it does.
impl<T> vstd::std_specs::convert::FromSpecImpl<RwLock<T>> for RwLockNotify<T> {
    open spec fn obeys_from_spec() -> bool {
        false
    }

    open spec fn from_spec(lock: RwLock<T>) -> Self {
        arbitrary()
    }
}

impl<T> From<RwLockNotify<T>> for RwLock<T> {
    fn from(lock: RwLockNotify<T>) -> (r: Self)
        ensures
            r == lock.value_lock(),
    {
        lock.lock
    }
}

impl<T> vstd::std_specs::convert::FromSpecImpl<RwLockNotify<T>> for RwLock<T> {
    open spec fn obeys_from_spec() -> bool {
        true
    }

    open spec fn from_spec(lock: RwLockNotify<T>) -> Self {
        lock.value_lock()
    }
}

/// An [`RwLock`] that a lock was made out of is what comes back out of it.
pub proof fn law_lock_round_trip<T>(lock: RwLock<T>, made: RwLockNotify<T>)
    requires
        made.value_lock() == lock,
    ensures
        <RwLock<T> as vstd::std_specs::convert::FromSpec<RwLockNotify<T>>>::from_spec(made) == lock,
{
}

} // verus!

//! The guards of a lock.
//!
//! A guard is given back by its `release`, which unlocks the value, collects the
//! queue where that is due, and has the callbacks run. A callback may panic, and a
//! drop must not, so a guard that merely goes out of scope runs none: it unlocks the
//! value, a read guard is no longer counted, and the callbacks stay in the queue for
//! the next release.
use vstd::prelude::*;

use crate::callback::{drained, QueuedCallback, Runner};
use crate::held::{maps_to, HeldMappedRead, HeldMappedWrite, HeldRead, HeldWrite};
use crate::inner::InnerView;
use crate::lock::{RwLockNotify, Turn};
use crate::place::{Collecting, Place};
use crate::section::Counted;
use crate::state::{
    close_steps, patient_close_steps, reopen_steps, take_steps, update_steps, LockState,
};
use crate::trace::{did, id_of, run, unlock_value, unlocked_after, GuardId, Log, Step, Writer};

verus! {

/// The steps of a read guard that goes and leaves the queue alone.
pub open spec fn plain_read_steps(guard: GuardId, before: InnerView) -> Seq<Step> {
    seq![Step::UnlockedValue(guard)] + update_steps(before, before.reader_left())
}

/// The steps of a read guard that goes and has the queue run.
pub open spec fn flushing_read_steps(
    guard: GuardId,
    before: InnerView,
    quiet: InnerView,
    later: InnerView,
) -> Seq<Step> {
    seq![Step::UnlockedValue(guard)] + close_steps(before, before.reader_left().closed())
        + take_steps(quiet) + reopen_steps(later) + seq![Step::Ran(quiet.callbacks)]
}

/// The steps of a write guard that goes, up to the moment when it unlocks the
/// value.
pub open spec fn write_collect_steps(
    before: InnerView,
    open: InnerView,
    quiet: InnerView,
) -> Seq<Step> {
    patient_close_steps(before, open) + take_steps(quiet)
}

/// The steps of a write guard that goes.
pub open spec fn write_steps(
    guard: GuardId,
    before: InnerView,
    open: InnerView,
    quiet: InnerView,
    later: InnerView,
) -> Seq<Step> {
    write_collect_steps(before, open, quiet) + seq![Step::UnlockedValue(guard)] + reopen_steps(
        later,
    ) + seq![Step::Ran(quiet.callbacks)]
}

/// The read guard `guard` on `state` is gone, and `first` is the failure of the
/// first callback that failed.
///
/// Before all else `guard` was dropped, which unlocks the value, and then it was no
/// longer counted. Where it was the last one, the queue was not empty and no
/// collection was under way, it held new write attempts up, waited for those under
/// way, and took the whole queue. It then let write attempts in again, and only
/// then, with nothing locked, the callbacks were run from first to last.
pub open spec fn read_released<G, R: Runner>(
    guard: G,
    state: LockState,
    runner: R,
    after: R,
    first: Option<R::Failure>,
) -> bool {
    &&& unlocked_after(guard, state, Seq::empty())
    &&& {
        ||| exists|before: InnerView|
            {
                &&& !before.reader_left().flush_due()
                &&& did(state, #[trigger] plain_read_steps(id_of(guard), before))
                &&& after == runner
                &&& first is None
            }
        ||| exists|before: InnerView, quiet: InnerView, later: InnerView|
            {
                &&& before.reader_left().flush_due()
                &&& quiet.locking == 0
                &&& did(
                    state,
                    #[trigger] flushing_read_steps(id_of(guard), before, quiet, later),
                )
                &&& drained(runner, quiet.callbacks, after, first)
            }
    }
}

/// The write guard `guard` on `state` is gone, and `first` is the failure of the
/// first callback that failed.
///
/// It waited for a collection under way, held new write attempts up, waited for
/// those under way, and took the whole queue. Then `guard` was dropped, which unlocks
/// the value, write attempts were let in again, and only then, with nothing locked,
/// the callbacks were run from first to last.
pub open spec fn write_released<G, R: Runner>(
    guard: G,
    state: LockState,
    runner: R,
    after: R,
    first: Option<R::Failure>,
) -> bool {
    exists|before: InnerView, open: InnerView, quiet: InnerView, later: InnerView|
        {
            &&& !open.dropping
            &&& quiet.locking == 0
            &&& unlocked_after(guard, state, write_collect_steps(before, open, quiet))
            &&& did(state, #[trigger] write_steps(id_of(guard), before, open, quiet, later))
            &&& drained(runner, quiet.callbacks, after, first)
        }
}

/// Lets write attempts in again, then runs the collected callbacks.
///
/// The queue must have been closed and collected before.
fn drain_and_run<R: Runner>(
    state: &LockState,
    collecting: Collecting<'_>,
    callbacks: Vec<QueuedCallback>,
    runner: R,
    log: &mut Log,
) -> (r: (R, Option<R::Failure>))
    requires
        collecting.open(),
        collecting.state() == *state,
        old(log).state() == *state,
    ensures
        final(log).state() == *state,
        drained(runner, callbacks@, r.0, r.1),
        exists|later: InnerView|
            final(log).steps() == old(log).steps() + #[trigger] reopen_steps(later) + seq![
                Step::Ran(callbacks@),
            ],
{
    state.reopen(collecting, log);
    let ghost reopened = log.steps();
    let ghost queue = callbacks@;
    let r = run(callbacks, runner, log);
    proof {
        let later = choose|later: InnerView|
            reopened == old(log).steps() + #[trigger] reopen_steps(later);
        assert(log.steps() == old(log).steps() + reopen_steps(later) + seq![Step::Ran(queue)]);
    }
    r
}

/// Unlocks a value that was locked for reading, stops counting its guard, and
/// has the queue run where that is due.
fn drop_read_guard<G, R: Runner>(
    guard: G,
    state: &LockState,
    counted: Counted,
    turn: Turn,
    runner: R,
) -> (r: (R, Option<R::Failure>))
    requires
        counted.state() == *state,
    ensures
        read_released(guard, *state, runner, r.0, r.1),
{
    let mut log = Log::begin(state, turn);
    unlock_value(guard, &mut log);
    let ghost unlocked = log.steps();
    match state.leave_reader(counted, &mut log) {
        None => {
            proof {
                let before = choose|before: InnerView|
                    !before.reader_left().flush_due() && log.steps() == unlocked
                        + #[trigger] update_steps(before, before.reader_left());
                assert(log.steps() == plain_read_steps(id_of(guard), before));
            }
            log.finish();
            (runner, None)
        },
        Some((callbacks, collecting)) => {
            let ghost collected = log.steps();
            let ghost queue = callbacks@;
            let r = drain_and_run(state, collecting, callbacks, runner, &mut log);
            proof {
                let (before, quiet) = choose|before: InnerView, quiet: InnerView|
                    {
                        &&& before.reader_left().flush_due()
                        &&& quiet.locking == 0
                        &&& queue == quiet.callbacks
                        &&& collected == unlocked + #[trigger] close_steps(
                            before,
                            before.reader_left().closed(),
                        ) + #[trigger] take_steps(quiet)
                    };
                let later = choose|later: InnerView|
                    log.steps() == collected + #[trigger] reopen_steps(later) + seq![
                        Step::Ran(queue),
                    ];
                assert(log.steps() == flushing_read_steps(id_of(guard), before, quiet, later));
            }
            log.finish();
            r
        },
    }
}

/// Collects the queue, unlocks a value that was locked for writing, and has the
/// collected callbacks run.
fn drop_write_guard<G, R: Runner>(
    guard: G,
    state: &LockState,
    writer: Writer,
    turn: Turn,
    runner: R,
) -> (r: (R, Option<R::Failure>))
    requires
        writer.state() == *state,
    ensures
        write_released(guard, *state, runner, r.0, r.1),
{
    let mut log = Log::begin(state, turn);
    let (callbacks, collecting) = state.leave_writer(writer, &mut log);
    let ghost collected = log.steps();
    let ghost queue = callbacks@;
    unlock_value(guard, &mut log);
    let ghost unlocked = log.steps();
    let r = drain_and_run(state, collecting, callbacks, runner, &mut log);
    proof {
        let (before, open, quiet) = choose|before: InnerView, open: InnerView, quiet: InnerView|
            {
                &&& !open.dropping
                &&& quiet.locking == 0
                &&& queue == quiet.callbacks
                &&& collected == Seq::<Step>::empty() + #[trigger] patient_close_steps(before, open)
                    + #[trigger] take_steps(quiet)
            };
        assert(collected == write_collect_steps(before, open, quiet));
        let later = choose|later: InnerView|
            log.steps() == unlocked + #[trigger] reopen_steps(later) + seq![Step::Ran(queue)];
        assert(log.steps() == write_steps(id_of(guard), before, open, quiet, later));
    }
    log.finish();
    r
}

/// Shared read access to the value of an [`RwLockNotify`], got by
/// [`RwLockNotify::read`] or [`RwLockNotify::try_read`].
#[must_use]
#[verifier::reject_recursive_types(T)]
pub struct RwLockNotifyReadGuard<'a, T> {
    // Declared before the place, so that the value is unlocked first.
    guard: HeldRead<'a, T>,
    place: Place<'a>,
    turn: Turn,
}

impl<'a, T> RwLockNotifyReadGuard<'a, T> {
    #[verifier::type_invariant]
    spec fn live(self) -> bool {
        self.guard.definite() && self.place.counted()
    }

    /// The value that the guard gives access to.
    pub closed spec fn view(&self) -> T {
        self.guard@
    }

    /// The guard on the value.
    pub closed spec fn held(self) -> HeldRead<'a, T> {
        self.guard
    }

    /// The state that the guard shares with its lock.
    pub closed spec fn lock_state(self) -> LockState {
        self.place.state()
    }

    /// Whether the guard was got from `lock`.
    pub closed spec fn came_from(self, lock: RwLockNotify<T>) -> bool {
        self.guard.came_from(lock.value_lock()) && self.place.state() == lock.lock_state()
    }

    /// Makes the guard of `lock`.
    pub(crate) fn new(
        guard: HeldRead<'a, T>,
        place: Place<'a>,
        turn: Turn,
        lock: &RwLockNotify<T>,
    ) -> (r: Self)
        requires
            guard.definite(),
            guard.came_from(lock.value_lock()),
            place.counted(),
            place.state() == lock.lock_state(),
        ensures
            r.came_from(*lock),
            r.held() == guard,
            r.lock_state() == lock.lock_state(),
        opens_invariants none
    {
        RwLockNotifyReadGuard { guard, place, turn }
    }

    /// The state that the guard shares with its lock.
    pub fn state(&self) -> (r: &'a LockState)
        ensures
            *r == self.lock_state(),
    {
        self.place.shared()
    }

    /// Narrows the guard down to the part of the value that `f` picks.
    pub fn map<U, F>(self, f: F) -> (r: MappedRwLockNotifyReadGuard<'a, U>) where
        F: FnOnce(&T) -> &U,

        requires
            call_requires(f, (&self@,)),
        ensures
            call_ensures(f, (&self@,), &r@),
            r.lock_state() == self.lock_state(),
            r.came_by_map(self, f),
    {
        proof {
            use_type_invariant(&self);
        }
        MappedRwLockNotifyReadGuard {
            guard: self.guard.map(f),
            place: self.place,
            turn: self.turn,
        }
    }

    /// Narrows the guard down to the part of the value that `f` picks. Where `f`
    /// returns `None`, the guard comes back as it was.
    pub fn try_map<U, F>(self, f: F) -> (r: Result<MappedRwLockNotifyReadGuard<'a, U>, Self>) where
        F: FnOnce(&T) -> Option<&U>,

        requires
            call_requires(f, (&self@,)),
        ensures
            match r {
                Ok(mapped) => {
                    &&& call_ensures(f, (&self@,), Some(&mapped@))
                    &&& mapped.lock_state() == self.lock_state()
                    &&& mapped.came_by_try_map(self, f)
                },
                Err(guard) => call_ensures(f, (&self@,), None) && guard == self,
            },
    {
        proof {
            use_type_invariant(&self);
        }
        let (place, turn) = (self.place, self.turn);
        match self.guard.try_map(f) {
            Ok(guard) => Ok(MappedRwLockNotifyReadGuard { guard, place, turn }),
            Err(guard) => Err(RwLockNotifyReadGuard { guard, place, turn }),
        }
    }

    /// Narrows the guard down to the part of the value that `f` picks. Where `f`
    /// returns an error, the guard comes back as it was, with that error.
    pub fn try_map_or_err<U, F, E>(self, f: F) -> (r: Result<
        MappedRwLockNotifyReadGuard<'a, U>,
        (Self, E),
    >) where F: FnOnce(&T) -> Result<&U, E>
        requires
            call_requires(f, (&self@,)),
        ensures
            match r {
                Ok(mapped) => {
                    &&& call_ensures(f, (&self@,), Ok(&mapped@))
                    &&& mapped.lock_state() == self.lock_state()
                    &&& mapped.came_by_try_map_or_err(self, f)
                },
                Err((guard, error)) => call_ensures(f, (&self@,), Err(error)) && guard == self,
            },
    {
        proof {
            use_type_invariant(&self);
        }
        let (place, turn) = (self.place, self.turn);
        match self.guard.try_map_or_err(f) {
            Ok(guard) => Ok(MappedRwLockNotifyReadGuard { guard, place, turn }),
            Err((guard, error)) => Err((RwLockNotifyReadGuard { guard, place, turn }, error)),
        }
    }

    /// Gives the access back. Where this was the last read guard, the callbacks
    /// in the queue are run; the failure of the first one that failed is returned.
    pub fn release<R: Runner>(self, runner: R) -> (r: (R, Option<R::Failure>))
        ensures
            read_released(self.held(), self.lock_state(), runner, r.0, r.1),
    {
        proof {
            use_type_invariant(&self);
        }
        let (state, counted) = self.place.leave();
        drop_read_guard(self.guard, state, counted, self.turn, runner)
    }
}

impl<'a, T> core::ops::Deref for RwLockNotifyReadGuard<'a, T> {
    type Target = T;

    fn deref(&self) -> (r: &T)
        ensures
            *r == self@,
    {
        proof {
            use_type_invariant(self);
        }
        self.guard.get()
    }
}

/// Shared read access to a part of the value of an [`RwLockNotify`], got from an
/// [`RwLockNotifyReadGuard`] by its `map` and the like.
#[must_use]
#[verifier::reject_recursive_types(T)]
pub struct MappedRwLockNotifyReadGuard<'a, T> {
    // Declared before the place, so that the value is unlocked first.
    guard: HeldMappedRead<'a, T>,
    place: Place<'a>,
    turn: Turn,
}

impl<'a, T> MappedRwLockNotifyReadGuard<'a, T> {
    #[verifier::type_invariant]
    spec fn live(self) -> bool {
        self.guard.definite() && self.place.counted()
    }

    /// The value that the guard gives access to.
    pub closed spec fn view(&self) -> T {
        self.guard@
    }

    /// The guard on the value.
    pub closed spec fn held(self) -> HeldMappedRead<'a, T> {
        self.guard
    }

    /// The state that the guard shares with its lock.
    pub closed spec fn lock_state(self) -> LockState {
        self.place.state()
    }

    /// The state that the guard shares with its lock.
    pub fn state(&self) -> (r: &'a LockState)
        ensures
            *r == self.lock_state(),
    {
        self.place.shared()
    }

    /// Gives the access back, just like [`RwLockNotifyReadGuard::release`].
    pub fn release<R: Runner>(self, runner: R) -> (r: (R, Option<R::Failure>))
        ensures
            read_released(self.held(), self.lock_state(), runner, r.0, r.1),
    {
        proof {
            use_type_invariant(&self);
        }
        let (state, counted) = self.place.leave();
        drop_read_guard(self.guard, state, counted, self.turn, runner)
    }
}

impl<'a, U> MappedRwLockNotifyReadGuard<'a, U> {
    /// Whether the guard was made from `guard` by its `map` with `f`. It is then
    /// on the lock that `guard` was on.
    pub closed spec fn came_by_map<T, F: FnOnce(&T) -> &U>(
        self,
        guard: RwLockNotifyReadGuard<'a, T>,
        f: F,
    ) -> bool {
        &&& self.place == guard.place
        &&& call_ensures(HeldRead::<'a, T>::map::<U, F>, (guard.guard, f), self.guard)
    }

    /// Whether the guard was made from `guard` by its `try_map` with `f`. It is then
    /// on the lock that `guard` was on.
    pub closed spec fn came_by_try_map<T, F: FnOnce(&T) -> Option<&U>>(
        self,
        guard: RwLockNotifyReadGuard<'a, T>,
        f: F,
    ) -> bool {
        &&& self.place == guard.place
        &&& call_ensures(HeldRead::<'a, T>::try_map::<U, F>, (guard.guard, f), Ok(self.guard))
    }

    /// Whether the guard was made from `guard` by its `try_map_or_err` with `f`. It is then
    /// on the lock that `guard` was on.
    pub closed spec fn came_by_try_map_or_err<T, E, F: FnOnce(&T) -> Result<&U, E>>(
        self,
        guard: RwLockNotifyReadGuard<'a, T>,
        f: F,
    ) -> bool {
        &&& self.place == guard.place
        &&& call_ensures(
            HeldRead::<'a, T>::try_map_or_err::<U, E, F>,
            (guard.guard, f),
            Ok(self.guard),
        )
    }
}

impl<'a, T> core::ops::Deref for MappedRwLockNotifyReadGuard<'a, T> {
    type Target = T;

    fn deref(&self) -> (r: &T)
        ensures
            *r == self@,
    {
        proof {
            use_type_invariant(self);
        }
        self.guard.get()
    }
}

/// Exclusive write access to the value of an [`RwLockNotify`], got by
/// [`RwLockNotify::write`], [`RwLockNotify::try_write`] or
/// [`RwLockNotify::try_write_or`].
#[must_use]
#[verifier::reject_recursive_types(T)]
pub struct RwLockNotifyWriteGuard<'a, T> {
    guard: HeldWrite<'a, T>,
    state: &'a LockState,
    writer: Writer,
    turn: Turn,
}

impl<'a, T> RwLockNotifyWriteGuard<'a, T> {
    #[verifier::type_invariant]
    spec fn definite(self) -> bool {
        self.guard.definite() && self.writer.state() == *self.state
    }

    /// The value that the guard gives access to.
    pub closed spec fn view(&self) -> T {
        self.guard@
    }

    /// The guard on the value.
    pub closed spec fn held(self) -> HeldWrite<'a, T> {
        self.guard
    }

    /// The state that the guard shares with its lock.
    pub closed spec fn lock_state(self) -> LockState {
        *self.state
    }

    /// Whether the guard was got from `lock`.
    pub closed spec fn came_from(self, lock: RwLockNotify<T>) -> bool {
        self.guard.came_from(lock.value_lock()) && *self.state == lock.lock_state()
    }

    /// Makes the guard of `lock`.
    pub(crate) fn new(
        guard: HeldWrite<'a, T>,
        state: &'a LockState,
        writer: Writer,
        turn: Turn,
        lock: &RwLockNotify<T>,
    ) -> (r: Self)
        requires
            writer.state() == *state,
            guard.definite(),
            guard.came_from(lock.value_lock()),
            *state == lock.lock_state(),
        ensures
            r.came_from(*lock),
            r.held() == guard,
            r.lock_state() == lock.lock_state(),
        opens_invariants none
    {
        RwLockNotifyWriteGuard { guard, state, writer, turn }
    }

    /// The state that the guard shares with its lock.
    pub fn state(&self) -> (r: &'a LockState)
        ensures
            *r == self.lock_state(),
    {
        self.state
    }

    /// Narrows the guard down to the part of the value that `f` picks.
    pub fn map<U, F>(self, f: F) -> (r: MappedRwLockNotifyWriteGuard<'a, U>) where
        F: FnOnce(&mut T) -> &mut U,

        requires
            forall|value: &mut T| *value == self@ ==> #[trigger] call_requires(f, (value,)),
        ensures
            maps_to(f, self@, r@),
            r.lock_state() == self.lock_state(),
            r.came_by_map(self, f),
    {
        proof {
            use_type_invariant(&self);
        }
        MappedRwLockNotifyWriteGuard {
            guard: self.guard.map(f),
            state: self.state,
            writer: self.writer,
            turn: self.turn,
        }
    }

    /// Narrows the guard down to the part of the value that `f` picks. Where `f`
    /// returns `None`, the guard comes back, with the value that `f` left behind.
    pub fn try_map<U, F>(self, f: F) -> (r: Result<
        MappedRwLockNotifyWriteGuard<'a, U>,
        Self,
    >) where F: FnOnce(&mut T) -> Option<&mut U>
        requires
            forall|value: &mut T| *value == self@ ==> #[trigger] call_requires(f, (value,)),
        ensures
            (r matches Ok(mapped) ==> {
                    &&& mapped.lock_state() == self.lock_state()
                    &&& mapped.came_by_try_map(self, f)
                    &&& exists|value: &mut T, part: &mut U|
                        *value == self@ && *part == mapped@ && #[trigger] call_ensures(
                            f,
                            (value,),
                            Some(part),
                        )
                }),
            (r matches Err(guard) ==> {
                    &&& guard.lock_state() == self.lock_state()
                    &&& exists|value: &mut T|
                        *value == self@ && guard@ == *final(value) && #[trigger] call_ensures(
                            f,
                            (value,),
                            None,
                        )
                    &&& forall|lock: RwLockNotify<T>|
                        self.came_from(lock) ==> guard.came_from(lock)
                }),
    {
        proof {
            use_type_invariant(&self);
        }
        let (state, writer, turn) = (self.state, self.writer, self.turn);
        match self.guard.try_map(f) {
            Ok(guard) => Ok(MappedRwLockNotifyWriteGuard { guard, state, writer, turn }),
            Err(guard) => Err(RwLockNotifyWriteGuard { guard, state, writer, turn }),
        }
    }

    /// Narrows the guard down to the part of the value that `f` picks. Where `f`
    /// returns an error, the guard comes back, with the value that `f` left
    /// behind, and with that error.
    pub fn try_map_err<U, F, E>(self, f: F) -> (r: Result<
        MappedRwLockNotifyWriteGuard<'a, U>,
        (Self, E),
    >) where F: FnOnce(&mut T) -> Result<&mut U, E>
        requires
            forall|value: &mut T| *value == self@ ==> #[trigger] call_requires(f, (value,)),
        ensures
            (r matches Ok(mapped) ==> {
                    &&& mapped.lock_state() == self.lock_state()
                    &&& mapped.came_by_try_map_err(self, f)
                    &&& exists|value: &mut T, part: &mut U|
                        *value == self@ && *part == mapped@ && #[trigger] call_ensures(
                            f,
                            (value,),
                            Ok(part),
                        )
                }),
            (r matches Err((guard, error)) ==> {
                    &&& guard.lock_state() == self.lock_state()
                    &&& exists|value: &mut T|
                        *value == self@ && guard@ == *final(value) && #[trigger] call_ensures(
                            f,
                            (value,),
                            Err(error),
                        )
                    &&& forall|lock: RwLockNotify<T>|
                        self.came_from(lock) ==> guard.came_from(lock)
                }),
    {
        proof {
            use_type_invariant(&self);
        }
        let (state, writer, turn) = (self.state, self.writer, self.turn);
        match self.guard.try_map_or_err(f) {
            Ok(guard) => Ok(MappedRwLockNotifyWriteGuard { guard, state, writer, turn }),
            Err((guard, error)) => {
                let back = (RwLockNotifyWriteGuard { guard, state, writer, turn }, error);
                assert(back.1 == error);
                Err(back)
            },
        }
    }

    /// Gives the access back and has the callbacks run that are in the queue; the
    /// failure of the first one that failed is returned.
    pub fn release<R: Runner>(self, runner: R) -> (r: (R, Option<R::Failure>))
        ensures
            write_released(self.held(), self.lock_state(), runner, r.0, r.1),
    {
        proof {
            use_type_invariant(&self);
        }
        drop_write_guard(self.guard, self.state, self.writer, self.turn, runner)
    }
}

impl<'a, T> core::ops::Deref for RwLockNotifyWriteGuard<'a, T> {
    type Target = T;

    fn deref(&self) -> (r: &T)
        ensures
            *r == self@,
    {
        proof {
            use_type_invariant(self);
        }
        self.guard.get()
    }
}

impl<'a, T> core::ops::DerefMut for RwLockNotifyWriteGuard<'a, T> {
    fn deref_mut(&mut self) -> (r: &mut T)
        ensures
            *r == old(self)@,
            final(self)@ == *final(r),
            final(self).lock_state() == old(self).lock_state(),
            forall|lock: RwLockNotify<T>|
                old(self).came_from(lock) ==> final(self).came_from(lock),
    {
        proof {
            use_type_invariant(&*self);
        }
        self.guard.get_mut()
    }
}

/// Exclusive write access to a part of the value of an [`RwLockNotify`], got from
/// an [`RwLockNotifyWriteGuard`] by its `map` and the like.
#[must_use]
#[verifier::reject_recursive_types(T)]
pub struct MappedRwLockNotifyWriteGuard<'a, T> {
    guard: HeldMappedWrite<'a, T>,
    state: &'a LockState,
    writer: Writer,
    turn: Turn,
}

impl<'a, T> MappedRwLockNotifyWriteGuard<'a, T> {
    #[verifier::type_invariant]
    spec fn definite(self) -> bool {
        self.guard.definite() && self.writer.state() == *self.state
    }

    /// The value that the guard gives access to.
    pub closed spec fn view(&self) -> T {
        self.guard@
    }

    /// The guard on the value.
    pub closed spec fn held(self) -> HeldMappedWrite<'a, T> {
        self.guard
    }

    /// The state that the guard shares with its lock.
    pub closed spec fn lock_state(self) -> LockState {
        *self.state
    }

    /// The state that the guard shares with its lock.
    pub fn state(&self) -> (r: &'a LockState)
        ensures
            *r == self.lock_state(),
    {
        self.state
    }

    /// Gives the access back, just like [`RwLockNotifyWriteGuard::release`].
    pub fn release<R: Runner>(self, runner: R) -> (r: (R, Option<R::Failure>))
        ensures
            write_released(self.held(), self.lock_state(), runner, r.0, r.1),
    {
        proof {
            use_type_invariant(&self);
        }
        drop_write_guard(self.guard, self.state, self.writer, self.turn, runner)
    }
}

impl<'a, U> MappedRwLockNotifyWriteGuard<'a, U> {
    /// Whether the guard was made from `guard` by its `map` with `f`. It is then
    /// on the lock that `guard` was on.
    pub closed spec fn came_by_map<T, F: FnOnce(&mut T) -> &mut U>(
        self,
        guard: RwLockNotifyWriteGuard<'a, T>,
        f: F,
    ) -> bool {
        &&& self.state == guard.state
        &&& call_ensures(HeldWrite::<'a, T>::map::<U, F>, (guard.guard, f), self.guard)
    }

    /// Whether the guard was made from `guard` by its `try_map` with `f`. It is then
    /// on the lock that `guard` was on.
    pub closed spec fn came_by_try_map<T, F: FnOnce(&mut T) -> Option<&mut U>>(
        self,
        guard: RwLockNotifyWriteGuard<'a, T>,
        f: F,
    ) -> bool {
        &&& self.state == guard.state
        &&& call_ensures(HeldWrite::<'a, T>::try_map::<U, F>, (guard.guard, f), Ok(self.guard))
    }

    /// Whether the guard was made from `guard` by its `try_map_err` with `f`. It is then
    /// on the lock that `guard` was on.
    pub closed spec fn came_by_try_map_err<T, E, F: FnOnce(&mut T) -> Result<&mut U, E>>(
        self,
        guard: RwLockNotifyWriteGuard<'a, T>,
        f: F,
    ) -> bool {
        &&& self.state == guard.state
        &&& call_ensures(
            HeldWrite::<'a, T>::try_map_or_err::<U, E, F>,
            (guard.guard, f),
            Ok(self.guard),
        )
    }
}

impl<'a, T> core::ops::Deref for MappedRwLockNotifyWriteGuard<'a, T> {
    type Target = T;

    fn deref(&self) -> (r: &T)
        ensures
            *r == self@,
    {
        proof {
            use_type_invariant(self);
        }
        self.guard.get()
    }
}

impl<'a, T> core::ops::DerefMut for MappedRwLockNotifyWriteGuard<'a, T> {
    fn deref_mut(&mut self) -> (r: &mut T)
        ensures
            *r == old(self)@,
            final(self)@ == *final(r),
            final(self).lock_state() == old(self).lock_state(),
    {
        proof {
            use_type_invariant(&*self);
        }
        self.guard.get_mut()
    }
}

} // verus!

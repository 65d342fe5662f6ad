//! Locks and guards of `parking_lot`, as far as this library uses them.
//!
//! The locks themselves are opaque. The guard types are bounded by traits of
//! `lock_api`, which a declaration cannot name, so each guard is held in a struct of
//! this module. What is known of a guard is which lock it came from and what it
//! gives access to. What a lock protects may change at any time while no guard is
//! held, so nothing is claimed of the value that a fresh guard finds.
//!
//! Some outside calls have results of which nothing can be claimed, and yet a
//! contract has to say that a value is the result of such a call. A spec function
//! then says so by `call_ensures` of the function that makes the call.
//!
//! To lock, wait or wake takes a [`LockKey`], which only the steps of [`crate::trace`]
//! have, and to get at the bookkeeping takes a [`ChangeKey`], which only the changes of
//! [`crate::section`] have.
use parking_lot::lock_api;
use parking_lot::{Condvar, Mutex, RwLock};
use vstd::prelude::*;

use crate::effect::Effect;
use crate::inner::{Inner, InnerView};
use crate::section::ChangeKey;
use crate::state::LockState;
use crate::trace::LockKey;

verus! {

/// The type `parking_lot::RawMutex`, the lock word of a mutex.
#[verifier::external_type_specification]
#[verifier::external_body]
pub struct ExRawMutex(parking_lot::RawMutex);

/// The type `parking_lot::RawRwLock`, the lock word of a reader-writer lock.
#[verifier::external_type_specification]
#[verifier::external_body]
pub struct ExRawRwLock(parking_lot::RawRwLock);

/// The type `parking_lot::Condvar`.
#[verifier::external_type_specification]
#[verifier::external_body]
pub struct ExCondvar(parking_lot::Condvar);

/// The type behind `parking_lot::Mutex`.
#[verifier::external_type_specification]
#[verifier::external_body]
#[verifier::reject_recursive_types(R)]
#[verifier::reject_recursive_types(T)]
pub struct ExMutex<R, T: ?Sized>(lock_api::Mutex<R, T>);

/// The type behind `parking_lot::RwLock`.
#[verifier::external_type_specification]
#[verifier::external_body]
#[verifier::reject_recursive_types(R)]
#[verifier::reject_recursive_types(T)]
pub struct ExRwLock<R, T: ?Sized>(lock_api::RwLock<R, T>);

// ---------------------------------------------------------------------------
// The mutex around the bookkeeping, and its condition variables
// ---------------------------------------------------------------------------
/// A condition that a thread waits out while it has given up the mutex.
#[derive(Clone, Copy, PartialEq, Eq, Structural)]
pub enum WaitWhile {
    /// The queue is being collected.
    Dropping,
    /// Write attempts are under way.
    Locking,
}

impl WaitWhile {
    /// Whether the condition holds.
    pub open spec fn holds(self, inner: InnerView) -> bool {
        match self {
            WaitWhile::Dropping => inner.dropping,
            WaitWhile::Locking => inner.locking != 0,
        }
    }

    /// Whether the condition holds.
    pub fn check(self, inner: &Inner) -> (r: bool)
        ensures
            r == self.holds(inner@),
    {
        match self {
            WaitWhile::Dropping => inner.dropping,
            WaitWhile::Locking => inner.locking != 0,
        }
    }
}

/// The mutex around the bookkeeping, locked: a `parking_lot::MutexGuard`.
#[verifier::external_body]
pub struct HeldInner<'a> {
    guard: parking_lot::MutexGuard<'a, Inner>,
}

/// The bookkeeping that a locked mutex gives access to.
pub uninterp spec fn contents(held: HeldInner<'_>) -> Inner;

/// The mutex that is locked: what `MutexGuard::mutex` returns.
pub uninterp spec fn mutex_of(held: HeldInner<'_>) -> Mutex<Inner>;

/// `Mutex::new`. What `made_with` says of a mutex is that this call returned it.
#[verifier::external_body]
fn raw_new_mutex(inner: Inner) -> Mutex<Inner> {
    Mutex::new(inner)
}

/// `Condvar::new`. Nothing is claimed of a condition variable.
#[verifier::external_body]
pub(crate) fn new_condvar() -> Condvar {
    Condvar::new()
}

/// `Mutex::lock`, which returns once the mutex is free and never panics. It locks
/// this very mutex; nothing is claimed of what the mutex protects at that moment.
#[verifier::external_body]
fn lock<'a>(mutex: &'a Mutex<Inner>) -> (r: HeldInner<'a>)
    ensures
        mutex_of(r) == *mutex,
    opens_invariants none
    no_unwind
{
    HeldInner { guard: mutex.lock() }
}

/// `Mutex::try_lock`. Whether the mutex is free is for other threads to decide:
/// nothing is claimed of that, nor of what the mutex protects.
#[verifier::external_body]
fn raw_try_lock<'a>(mutex: &'a Mutex<Inner>) -> (r: Option<HeldInner<'a>>)
    ensures
        r is Some ==> mutex_of(r->0) == *mutex,
    opens_invariants none
{
    match mutex.try_lock() {
        Some(guard) => Some(HeldInner { guard }),
        None => None,
    }
}

/// Unlocks the mutex by dropping the guard on it.
pub(crate) fn unlock(held: HeldInner<'_>)
    opens_invariants none
    no_unwind
{
}

/// `Condvar::wait_while`. It gives the mutex up while the condition holds and
/// returns with the mutex locked again and the condition false. What else the
/// bookkeeping holds then is up to the other threads.
///
/// The call panics where two mutexes wait on one condition variable. So the
/// mutex and the condition variable have to be those of one `state`.
#[verifier::external_body]
fn wait_while<'a>(
    held: HeldInner<'a>,
    state: &LockState,
    condvar: &Condvar,
    condition: WaitWhile,
) -> (r: HeldInner<'a>)
    requires
        mutex_of(held) == state.mutex(),
        *condvar == state.condvar_for(condition),
    ensures
        mutex_of(r) == state.mutex(),
        !condition.holds(contents(r)@),
    opens_invariants none
{
    let mut held = held;
    condvar.wait_while(&mut held.guard, |inner| condition.check(inner));
    held
}

/// `Condvar::notify_one`. Whether it finds a thread to wake is not claimed.
#[verifier::external_body]
fn notify_one(condvar: &Condvar) -> bool
    opens_invariants none
    no_unwind
{
    condvar.notify_one()
}

/// `Condvar::notify_all`. How many threads it finds to wake is not claimed.
#[verifier::external_body]
fn notify_all(condvar: &Condvar) -> usize
    opens_invariants none
    no_unwind
{
    condvar.notify_all()
}

impl<'a> HeldInner<'a> {
    /// `DerefMut` of a `MutexGuard`: a reference to what the mutex protects.
    /// The same mutex stays locked meanwhile.
    #[verifier::external_body]
    fn get_mut(&mut self) -> (r: &mut Inner)
        ensures
            *r == contents(*old(self)),
            *final(r) == contents(*final(self)),
            mutex_of(*final(self)) == mutex_of(*old(self)),
        opens_invariants none
        no_unwind
    {
        &mut *self.guard
    }
}

impl<'a> HeldInner<'a> {
    /// What the mutex protects. The same mutex stays locked meanwhile.
    pub(crate) fn open(&mut self, key: &ChangeKey) -> (r: &mut Inner)
        ensures
            *r == contents(*old(self)),
            *final(r) == contents(*final(self)),
            mutex_of(*final(self)) == mutex_of(*old(self)),
        opens_invariants none
        no_unwind
    {
        self.get_mut()
    }
}

/// `held` is `mutex`, just locked.
pub closed spec fn just_locked(mutex: Mutex<Inner>, held: HeldInner<'_>) -> bool {
    call_ensures(lock, (&mutex,), held) || call_ensures(raw_try_lock, (&mutex,), Some(held))
}

/// A thread that held `given` waited while `condition` held and then held
/// `regained`.
pub closed spec fn waited(
    state: LockState,
    condition: WaitWhile,
    given: HeldInner<'_>,
    regained: HeldInner<'_>,
) -> bool {
    call_ensures(
        wait_while,
        (given, &state, &state.condvar_for(condition), condition),
        regained,
    )
}

/// `condvar` was told to wake one thread.
pub closed spec fn notified_one(condvar: Condvar) -> bool {
    exists|woken: bool| #[trigger] call_ensures(notify_one, (&condvar,), woken)
}

/// `condvar` was told to wake all threads.
pub closed spec fn notified_all(condvar: Condvar) -> bool {
    exists|woken: usize| #[trigger] call_ensures(notify_all, (&condvar,), woken)
}

/// Locks `mutex`, waiting as long as it takes.
pub(crate) fn lock_with<'a>(mutex: &'a Mutex<Inner>, key: &LockKey) -> (r: HeldInner<'a>)
    ensures
        mutex_of(r) == *mutex,
        just_locked(*mutex, r),
    opens_invariants none
    no_unwind
{
    lock(mutex)
}

/// Gives the mutex up until `condition` no longer holds.
pub(crate) fn wait_with<'a>(
    held: HeldInner<'a>,
    state: &LockState,
    condvar: &Condvar,
    condition: WaitWhile,
    key: &LockKey,
) -> (r: HeldInner<'a>)
    requires
        mutex_of(held) == state.mutex(),
        *condvar == state.condvar_for(condition),
    ensures
        mutex_of(r) == state.mutex(),
        !condition.holds(contents(r)@),
        waited(*state, condition, held, r),
    opens_invariants none
{
    wait_while(held, state, condvar, condition)
}

/// Tells `condvar` to wake one thread.
pub(crate) fn wake_one(condvar: &Condvar, key: &LockKey)
    ensures
        notified_one(*condvar),
    opens_invariants none
    no_unwind
{
    let woken = notify_one(condvar);
    assert(call_ensures(notify_one, (condvar,), woken));
}

/// Tells `condvar` to wake all threads.
pub(crate) fn wake_all(condvar: &Condvar, key: &LockKey)
    ensures
        notified_all(*condvar),
    opens_invariants none
    no_unwind
{
    let woken = notify_all(condvar);
    assert(call_ensures(notify_all, (condvar,), woken));
}

/// Whether `mutex` was made around `inner`.
pub closed spec fn made_with(mutex: Mutex<Inner>, inner: Inner) -> bool {
    call_ensures(raw_new_mutex, (inner,), mutex)
}

/// Whether an attempt to lock `mutex` without waiting found it locked.
pub closed spec fn was_locked(mutex: Mutex<Inner>) -> bool {
    call_ensures(raw_try_lock, (&mutex,), None)
}

/// Makes a mutex around `inner`.
pub(crate) fn new_mutex(inner: Inner) -> (r: Mutex<Inner>)
    ensures
        made_with(r, inner),
{
    raw_new_mutex(inner)
}

/// Locks `mutex` if that can be done without waiting.
pub(crate) fn try_lock<'a>(mutex: &'a Mutex<Inner>, key: &LockKey) -> (r: Option<HeldInner<'a>>)
    ensures
        match r {
            Some(held) => mutex_of(held) == *mutex && just_locked(*mutex, held),
            None => was_locked(*mutex),
        },
    opens_invariants none
{
    raw_try_lock(mutex)
}

// ---------------------------------------------------------------------------
// The reader-writer lock around the value
// ---------------------------------------------------------------------------
/// `RwLock::new`. What `lock_made_with` says of a lock is that this call
/// returned it.
#[verifier::external_body]
fn raw_new_rwlock<T>(value: T) -> RwLock<T> {
    RwLock::new(value)
}

/// `RwLock::into_inner`. What `unwrapped_from` says of a value is that this call
/// returned it. Which value that is depends on what was written before.
#[verifier::external_body]
fn raw_into_inner<T>(lock: RwLock<T>) -> T
    opens_invariants none
{
    lock.into_inner()
}

/// Whether `lock` was made around `value`.
pub closed spec fn lock_made_with<T>(lock: RwLock<T>, value: T) -> bool {
    call_ensures(raw_new_rwlock::<T>, (value,), lock)
}

/// Whether `value` is what `lock` protected when it was taken apart.
pub closed spec fn unwrapped_from<T>(value: T, lock: RwLock<T>) -> bool {
    call_ensures(raw_into_inner::<T>, (lock,), value)
}

/// Makes a lock around `value`.
pub(crate) fn new_rwlock<T>(value: T) -> (r: RwLock<T>)
    ensures
        lock_made_with(r, value),
{
    raw_new_rwlock(value)
}

/// Takes the value out of a lock.
pub(crate) fn into_inner<T>(lock: RwLock<T>) -> (r: T)
    ensures
        unwrapped_from(r, lock),
    opens_invariants none
{
    raw_into_inner(lock)
}

/// A reader-writer lock, locked for reading: a `parking_lot::RwLockReadGuard`.
#[verifier::external_body]
#[verifier::reject_recursive_types(T)]
pub struct HeldRead<'a, T> {
    guard: parking_lot::RwLockReadGuard<'a, T>,
}

impl<'a, T> HeldRead<'a, T> {
    /// Whether the guard gives access to `value`.
    pub closed spec fn shows(self, value: T) -> bool {
        call_ensures(HeldRead::<'a, T>::raw_get, (&self,), &value)
    }

    /// The guard gives access to one value, and to no other.
    pub open spec fn definite(self) -> bool {
        forall|value: T| #[trigger] self.shows(value) <==> value == self@
    }

    /// The value that the guard gives access to.
    pub open spec fn view(&self) -> T {
        choose|value: T| self.shows(value)
    }

    /// `Deref` of `RwLockReadGuard`. What `shows` says of a value is that
    /// this call returned it.
    #[verifier::external_body]
    fn raw_get(&self) -> &T {
        &*self.guard
    }

    /// The value that the guard gives access to.
    pub fn get(&self) -> (r: &T)
        requires
            self.definite(),
        ensures
            *r == self@,
    {
        let r = self.raw_get();
        assert(self.shows(*r));
        r
    }

    /// `RwLock::read`, which returns once no writer has the lock or waits for it.
    /// The guard gives access to one value; nothing is claimed of which one.
    ///
    /// The call panics where the lock has more readers than it can count. How
    /// many it has is for other threads to decide, so no condition says that.
    #[verifier::external_body]
    fn raw_read(lock: &'a RwLock<T>) -> (r: Self)
        ensures
            r.definite(),
        opens_invariants [Effect::Read.name()]
    {
        HeldRead { guard: lock.read() }
    }

    /// `RwLock::try_read`. Whether the lock is to be had is for other threads to
    /// decide: nothing is claimed of that, nor of the value. It panics where
    /// `RwLock::read` does.
    #[verifier::external_body]
    fn raw_try_read(lock: &'a RwLock<T>) -> (r: Option<Self>)
        ensures
            r is Some ==> r->0.definite(),
        opens_invariants [Effect::TryRead.name()]
    {
        match lock.try_read() {
            Some(guard) => Some(HeldRead { guard }),
            None => None,
        }
    }

    /// Whether the guard was got from `lock`.
    pub closed spec fn came_from(self, lock: RwLock<T>) -> bool {
        call_ensures(HeldRead::<'a, T>::raw_read, (&lock,), self) || call_ensures(
            HeldRead::<'a, T>::raw_try_read,
            (&lock,),
            Some(self),
        )
    }

    /// Whether `lock` refused to be locked for reading.
    pub closed spec fn refused_by(lock: RwLock<T>) -> bool {
        call_ensures(HeldRead::<'a, T>::raw_try_read, (&lock,), None)
    }

    /// Locks `lock` for reading, waiting as long as it takes.
    pub(crate) fn read(lock: &'a RwLock<T>, key: &LockKey) -> (r: Self)
        ensures
            r.definite(),
            r.came_from(*lock),
        opens_invariants [Effect::Read.name()]
    {
        Self::raw_read(lock)
    }

    /// Locks `lock` for reading if that can be done without waiting.
    pub(crate) fn try_read(lock: &'a RwLock<T>, key: &LockKey) -> (r: Option<Self>)
        ensures
            match r {
                Some(held) => held.definite() && held.came_from(*lock),
                None => Self::refused_by(*lock),
            },
        opens_invariants [Effect::TryRead.name()]
    {
        Self::raw_try_read(lock)
    }

    /// `RwLockReadGuard::map`. `f` is called on the value of the guard, and the
    /// new guard gives access to what it returned.
    #[verifier::external_body]
    pub(crate) fn map<U, F: FnOnce(&T) -> &U>(self, f: F) -> (r: HeldMappedRead<'a, U>)
        requires
            self.definite(),
            call_requires(f, (&self@,)),
        ensures
            r.definite(),
            call_ensures(f, (&self@,), &r@),
    {
        HeldMappedRead { guard: parking_lot::RwLockReadGuard::map(self.guard, f) }
    }

    /// `RwLockReadGuard::try_map`. `f` is called on the value of the guard. Where
    /// it returns a reference, the new guard gives access to that; where it
    /// returns `None`, the guard comes back as it was.
    #[verifier::external_body]
    pub(crate) fn try_map<U, F: FnOnce(&T) -> Option<&U>>(self, f: F) -> (r: Result<
        HeldMappedRead<'a, U>,
        Self,
    >)
        requires
            self.definite(),
            call_requires(f, (&self@,)),
        ensures
            match r {
                Ok(mapped) => mapped.definite() && call_ensures(f, (&self@,), Some(&mapped@)),
                Err(guard) => guard == self && call_ensures(f, (&self@,), None),
            },
    {
        match parking_lot::RwLockReadGuard::try_map(self.guard, f) {
            Ok(guard) => Ok(HeldMappedRead { guard }),
            Err(guard) => Err(HeldRead { guard }),
        }
    }

    /// `RwLockReadGuard::try_map_or_err`. As `try_map`, with the error of `f`
    /// beside the guard that comes back.
    #[verifier::external_body]
    pub(crate) fn try_map_or_err<U, E, F: FnOnce(&T) -> Result<&U, E>>(self, f: F) -> (r: Result<
        HeldMappedRead<'a, U>,
        (Self, E),
    >)
        requires
            self.definite(),
            call_requires(f, (&self@,)),
        ensures
            match r {
                Ok(mapped) => mapped.definite() && call_ensures(f, (&self@,), Ok(&mapped@)),
                Err((guard, error)) => guard == self && call_ensures(f, (&self@,), Err(error)),
            },
    {
        match parking_lot::RwLockReadGuard::try_map_or_err(self.guard, f) {
            Ok(guard) => Ok(HeldMappedRead { guard }),
            Err((guard, error)) => Err((HeldRead { guard }, error)),
        }
    }
}

/// Part of the value of a reader-writer lock that is locked for reading: a
/// `parking_lot::MappedRwLockReadGuard`.
#[verifier::external_body]
#[verifier::reject_recursive_types(T)]
pub struct HeldMappedRead<'a, T> {
    guard: parking_lot::MappedRwLockReadGuard<'a, T>,
}

impl<'a, T> HeldMappedRead<'a, T> {
    /// Whether the guard gives access to `value`.
    pub closed spec fn shows(self, value: T) -> bool {
        call_ensures(HeldMappedRead::<'a, T>::raw_get, (&self,), &value)
    }

    /// The guard gives access to one value, and to no other.
    pub open spec fn definite(self) -> bool {
        forall|value: T| #[trigger] self.shows(value) <==> value == self@
    }

    /// The value that the guard gives access to.
    pub open spec fn view(&self) -> T {
        choose|value: T| self.shows(value)
    }

    /// `Deref` of `MappedRwLockReadGuard`. What `shows` says of a value is that
    /// this call returned it.
    #[verifier::external_body]
    fn raw_get(&self) -> &T {
        &*self.guard
    }

    /// The value that the guard gives access to.
    pub fn get(&self) -> (r: &T)
        requires
            self.definite(),
        ensures
            *r == self@,
    {
        let r = self.raw_get();
        assert(self.shows(*r));
        r
    }
}

/// Whether `f` may return a reference to `part` for a reference to `value`.
pub open spec fn maps_to<T, U, F: FnOnce(&mut T) -> &mut U>(f: F, value: T, part: U) -> bool {
    exists|arg: &mut T, ret: &mut U|
        *arg == value && *ret == part && #[trigger] call_ensures(f, (arg,), ret)
}

/// A reader-writer lock, locked for writing: a `parking_lot::RwLockWriteGuard`.
#[verifier::external_body]
#[verifier::reject_recursive_types(T)]
pub struct HeldWrite<'a, T> {
    guard: parking_lot::RwLockWriteGuard<'a, T>,
}

impl<'a, T> HeldWrite<'a, T> {
    /// Whether the guard gives access to `value`.
    pub closed spec fn shows(self, value: T) -> bool {
        call_ensures(HeldWrite::<'a, T>::raw_get, (&self,), &value)
    }

    /// The guard gives access to one value, and to no other.
    pub open spec fn definite(self) -> bool {
        forall|value: T| #[trigger] self.shows(value) <==> value == self@
    }

    /// The value that the guard gives access to.
    pub open spec fn view(&self) -> T {
        choose|value: T| self.shows(value)
    }

    /// `Deref` of `RwLockWriteGuard`. What `shows` says of a value is that
    /// this call returned it.
    #[verifier::external_body]
    fn raw_get(&self) -> &T {
        &*self.guard
    }

    /// The value that the guard gives access to.
    pub fn get(&self) -> (r: &T)
        requires
            self.definite(),
        ensures
            *r == self@,
    {
        let r = self.raw_get();
        assert(self.shows(*r));
        r
    }

    /// `DerefMut` of `RwLockWriteGuard`: a reference to the value that the
    /// guard gives access to, through which that value can be replaced.
    /// The guard stays one on its lock.
    #[verifier::external_body]
    pub(crate) fn get_mut(&mut self) -> (r: &mut T)
        requires
            old(self).definite(),
        ensures
            *r == old(self)@,
            final(self).definite(),
            final(self)@ == *final(r),
            forall|lock: RwLock<T>| old(self).came_from(lock) ==> final(self).came_from(lock),
        no_unwind
    {
        &mut *self.guard
    }

    /// `RwLock::write`, which returns once nobody else has the lock. The guard
    /// gives access to one value; nothing is claimed of which one.
    #[verifier::external_body]
    fn raw_write(lock: &'a RwLock<T>) -> (r: Self)
        ensures
            r.definite(),
        opens_invariants [Effect::Write.name()]
    {
        HeldWrite { guard: lock.write() }
    }

    /// `RwLock::try_write`. Whether the lock is to be had is for other threads to
    /// decide: nothing is claimed of that, nor of the value.
    #[verifier::external_body]
    fn raw_try_write(lock: &'a RwLock<T>) -> (r: Option<Self>)
        ensures
            r is Some ==> r->0.definite(),
        opens_invariants [Effect::TryWrite.name()]
    {
        match lock.try_write() {
            Some(guard) => Some(HeldWrite { guard }),
            None => None,
        }
    }

    /// Whether the guard was got from `lock`.
    pub closed spec fn came_from(self, lock: RwLock<T>) -> bool {
        call_ensures(HeldWrite::<'a, T>::raw_write, (&lock,), self) || call_ensures(
            HeldWrite::<'a, T>::raw_try_write,
            (&lock,),
            Some(self),
        )
    }

    /// Whether `lock` refused to be locked for writing.
    pub closed spec fn refused_by(lock: RwLock<T>) -> bool {
        call_ensures(HeldWrite::<'a, T>::raw_try_write, (&lock,), None)
    }

    /// Locks `lock` for writing, waiting as long as it takes.
    pub(crate) fn write(lock: &'a RwLock<T>, key: &LockKey) -> (r: Self)
        ensures
            r.definite(),
            r.came_from(*lock),
        opens_invariants [Effect::Write.name()]
    {
        Self::raw_write(lock)
    }

    /// Locks `lock` for writing if that can be done without waiting.
    pub(crate) fn try_write(lock: &'a RwLock<T>, key: &LockKey) -> (r: Option<Self>)
        ensures
            match r {
                Some(held) => held.definite() && held.came_from(*lock),
                None => Self::refused_by(*lock),
            },
        opens_invariants [Effect::TryWrite.name()]
    {
        Self::raw_try_write(lock)
    }

    /// `RwLockWriteGuard::map`. `f` is called on a reference to the value of the
    /// guard, and the new guard gives access to what it returned.
    #[verifier::external_body]
    pub(crate) fn map<U, F: FnOnce(&mut T) -> &mut U>(self, f: F) -> (r: HeldMappedWrite<'a, U>)
        requires
            self.definite(),
            forall|value: &mut T| *value == self@ ==> #[trigger] call_requires(f, (value,)),
        ensures
            r.definite(),
            maps_to(f, self@, r@),
    {
        HeldMappedWrite { guard: parking_lot::RwLockWriteGuard::map(self.guard, f) }
    }

    /// `RwLockWriteGuard::try_map`. `f` is called on a reference to the value of
    /// the guard. Where it returns a reference, the new guard gives access to
    /// that; where it returns `None`, the guard comes back, with the value that
    /// `f` left behind.
    #[verifier::external_body]
    pub(crate) fn try_map<U, F: FnOnce(&mut T) -> Option<&mut U>>(self, f: F) -> (r: Result<
        HeldMappedWrite<'a, U>,
        Self,
    >)
        requires
            self.definite(),
            forall|value: &mut T| *value == self@ ==> #[trigger] call_requires(f, (value,)),
        ensures
            (match r {
                Ok(mapped) => mapped.definite() && exists|value: &mut T, part: &mut U|
                    *value == self@ && *part == mapped@ && #[trigger] call_ensures(
                        f,
                        (value,),
                        Some(part),
                    ),
                Err(guard) => guard.definite() && exists|value: &mut T|
                    *value == self@ && guard@ == *final(value) && #[trigger] call_ensures(
                        f,
                        (value,),
                        None,
                    ),
            }),
            (r is Err ==> forall|lock: RwLock<T>|
                self.came_from(lock) ==> (r->Err_0).came_from(lock)),
    {
        match parking_lot::RwLockWriteGuard::try_map(self.guard, f) {
            Ok(guard) => Ok(HeldMappedWrite { guard }),
            Err(guard) => Err(HeldWrite { guard }),
        }
    }

    /// `RwLockWriteGuard::try_map_or_err`. As `try_map`, with the error of `f`
    /// beside the guard that comes back.
    #[verifier::external_body]
    pub(crate) fn try_map_or_err<U, E, F: FnOnce(&mut T) -> Result<&mut U, E>>(
        self,
        f: F,
    ) -> (r: Result<HeldMappedWrite<'a, U>, (Self, E)>)
        requires
            self.definite(),
            forall|value: &mut T| *value == self@ ==> #[trigger] call_requires(f, (value,)),
        ensures
            (match r {
                Ok(mapped) => mapped.definite() && exists|value: &mut T, part: &mut U|
                    *value == self@ && *part == mapped@ && #[trigger] call_ensures(
                        f,
                        (value,),
                        Ok(part),
                    ),
                Err((guard, error)) => guard.definite() && exists|value: &mut T|
                    *value == self@ && guard@ == *final(value) && #[trigger] call_ensures(
                        f,
                        (value,),
                        Err(error),
                    ),
            }),
            (r is Err ==> forall|lock: RwLock<T>|
                self.came_from(lock) ==> (r->Err_0).0.came_from(lock)),
    {
        match parking_lot::RwLockWriteGuard::try_map_or_err(self.guard, f) {
            Ok(guard) => Ok(HeldMappedWrite { guard }),
            Err((guard, error)) => Err((HeldWrite { guard }, error)),
        }
    }
}

/// Part of the value of a reader-writer lock that is locked for writing: a
/// `parking_lot::MappedRwLockWriteGuard`.
#[verifier::external_body]
#[verifier::reject_recursive_types(T)]
pub struct HeldMappedWrite<'a, T> {
    guard: parking_lot::MappedRwLockWriteGuard<'a, T>,
}

impl<'a, T> HeldMappedWrite<'a, T> {
    /// Whether the guard gives access to `value`.
    pub closed spec fn shows(self, value: T) -> bool {
        call_ensures(HeldMappedWrite::<'a, T>::raw_get, (&self,), &value)
    }

    /// The guard gives access to one value, and to no other.
    pub open spec fn definite(self) -> bool {
        forall|value: T| #[trigger] self.shows(value) <==> value == self@
    }

    /// The value that the guard gives access to.
    pub open spec fn view(&self) -> T {
        choose|value: T| self.shows(value)
    }

    /// `Deref` of `MappedRwLockWriteGuard`. What `shows` says of a value is that
    /// this call returned it.
    #[verifier::external_body]
    fn raw_get(&self) -> &T {
        &*self.guard
    }

    /// The value that the guard gives access to.
    pub fn get(&self) -> (r: &T)
        requires
            self.definite(),
        ensures
            *r == self@,
    {
        let r = self.raw_get();
        assert(self.shows(*r));
        r
    }

    /// `DerefMut` of `MappedRwLockWriteGuard`: a reference to the value that the
    /// guard gives access to, through which that value can be replaced. Which
    /// guard it was narrowed down from is not said of it again.
    #[verifier::external_body]
    pub(crate) fn get_mut(&mut self) -> (r: &mut T)
        requires
            old(self).definite(),
        ensures
            *r == old(self)@,
            final(self).definite(),
            final(self)@ == *final(r),
        no_unwind
    {
        &mut *self.guard
    }
}

} // verus!

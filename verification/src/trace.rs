//! What a call does to the state of a lock, step by step.
//!
//! The state is shared with other threads, so a contract cannot say what it is
//! after a call. It can say what the call did: which steps, in which order, with
//! what before and after each of them. The library takes all such steps through the
//! functions of this module, with a [`Log`] for each call, and only they can add
//! to a log. A step on the mutex or a condition variable is added only together with
//! the call of `parking_lot` that it stands for.
//!
//! There is no other way to a lock: only this module has a [`LockKey`]. A log takes a
//! [`Turn`], which a call on a lock makes for itself and which a guard has for its one
//! release.
use parking_lot::{Condvar, Mutex, RwLock};
use vstd::prelude::*;

use crate::callback::{drained, run_callbacks, QueuedCallback, Runner};
use crate::effect::Effect;
use crate::held;
use crate::held::{
    contents, just_locked, mutex_of, notified_all, notified_one, waited, HeldInner, HeldRead,
    HeldWrite, WaitWhile,
};
use crate::inner::{Inner, InnerView};
use crate::lock::Turn;
use crate::section::{Attempt, Collection, Counted};
use crate::state::{reopen_steps, update_steps, win_steps, LockState};

verus! {

/// What a guard on the value is known by in a log. A guard through which the value
/// was written, or that was narrowed down, is known by another id from then on.
pub struct GuardId {
    number: int,
}

/// One step of a thread.
pub enum Step {
    /// Locked the mutex and found this behind it.
    Locked(InnerView),
    /// Unlocked the mutex and left this behind it.
    Unlocked(InnerView),
    /// Gave the locked mutex up, with `given` behind it, for as long as
    /// `condition` held, which may be no time at all.
    GaveUp { condition: WaitWhile, given: InnerView },
    /// Found this behind the mutex when it was locked again.
    Regained(InnerView),
    /// Had a callback made.
    MadeCallback,
    /// Woke one of the threads that wait while there are write attempts.
    WokeCollector,
    /// Woke all the threads that wait while the queue is being collected.
    WokeAttempts,
    /// Locked the value for reading and got this guard.
    LockedRead(GuardId),
    /// Locked the value for writing and got this guard.
    LockedWrite(GuardId),
    /// Was refused a lock on the value.
    Refused,
    /// Unlocked the value by dropping this guard.
    UnlockedValue(GuardId),
    /// Ran these callbacks, from first to last.
    Ran(Seq<QueuedCallback>),
}

/// Leave to lock, to wait and to wake. Only this module has it.
pub struct LockKey {
    private: (),
}

/// A write guard. Only the steps that lock the value for writing make one, and the step
/// that begins to collect the queue for the guard uses it up.
pub struct Writer {
    state: Ghost<LockState>,
}

impl Writer {
    /// The state that belongs to the lock on the value.
    pub closed spec fn state(self) -> LockState {
        self.state@
    }
}

/// The mutex was unlocked when it was `held`.
pub closed spec fn unlocked(held: HeldInner<'_>) -> bool {
    call_ensures(held::unlock, (held,), ())
}

/// Behind the step at `i` stands the call of `parking_lot` that it says was made.
///
/// The locks on the value are not among these: the contracts speak of the guards
/// themselves.
pub open spec fn backed(state: LockState, steps: Seq<Step>, i: int) -> bool {
    match steps[i] {
        Step::Locked(found) => exists|held: HeldInner<'_>| #[trigger]
            just_locked(state.mutex(), held) && contents(held)@ == found,
        Step::Unlocked(left) => exists|held: HeldInner<'_>| #[trigger]
            unlocked(held) && mutex_of(held) == state.mutex() && contents(held)@ == left,
        Step::GaveUp { condition, given } => exists|held: HeldInner<'_>, after: HeldInner<'_>|
            #[trigger]
            waited(state, condition, held, after) && mutex_of(held) == state.mutex() && contents(
                held,
            )@ == given,
        Step::Regained(regained) => {
            &&& i > 0
            &&& steps[i - 1] is GaveUp
            &&& exists|held: HeldInner<'_>, after: HeldInner<'_>|
                {
                    &&& #[trigger] waited(state, steps[i - 1]->condition, held, after)
                    &&& contents(held)@ == steps[i - 1]->given
                    &&& contents(after)@ == regained
                }
        },
        Step::WokeCollector => notified_one(state.locking_zero()),
        Step::WokeAttempts => notified_all(state.not_dropping()),
        _ => true,
    }
}

/// The steps that a thread has taken on one state.
pub struct Log {
    state: Ghost<LockState>,
    steps: Ghost<Seq<Step>>,
}

impl Log {
    /// The state that the steps were taken on.
    pub closed spec fn state(self) -> LockState {
        self.state@
    }

    /// The steps, first one first.
    pub closed spec fn steps(self) -> Seq<Step> {
        self.steps@
    }

    #[verifier::type_invariant]
    spec fn all_backed(self) -> bool {
        forall|i: int|
            0 <= i < self.steps().len() ==> #[trigger] backed(self.state(), self.steps(), i)
    }

    /// The call that this log belongs to is over.
    pub closed spec fn ended(self) -> bool {
        call_ensures(Log::end, (self,), ())
    }

    /// `after` is this log with one more step.
    pub open spec fn grew(self, step: Step, after: Log) -> bool {
        after.state() == self.state() && after.steps() == self.steps().push(step)
    }

    /// Begins the log of a call.
    pub(crate) fn begin(state: &LockState, turn: Turn) -> (r: Log)
        ensures
            r.state() == *state,
            r.steps() == Seq::<Step>::empty(),
        opens_invariants none
        no_unwind
    {
        Log::fresh(state)
    }

    /// An empty log.
    fn fresh(state: &LockState) -> (r: Log)
        ensures
            r.state() == *state,
            r.steps() == Seq::<Step>::empty(),
        opens_invariants none
        no_unwind
    {
        Log { state: Ghost(*state), steps: Ghost(Seq::empty()) }
    }

    /// Marks the end of the call: `ended` says of a log that it came here.
    fn end(self)
        opens_invariants none
        no_unwind
    {
    }

    /// Ends the log of a call.
    pub(crate) fn finish(self)
        ensures
            did(self.state(), self.steps()),
        opens_invariants none
        no_unwind
    {
        proof {
            use_type_invariant(&self);
        }
        self.end();
        assert(self.ended());
    }

    /// Adds a step.
    fn add_step(&mut self, step: Ghost<Step>)
        requires
            backed(
                old(self).state(),
                old(self).steps().push(step@),
                old(self).steps().len() as int,
            ),
        ensures
            old(self).grew(step@, *final(self)),
        opens_invariants none
        no_unwind
    {
        proof {
            use_type_invariant(&*self);
            let before = self.steps();
            let after = before.push(step@);
            assert forall|i: int| 0 <= i < after.len() implies #[trigger] backed(
                self.state(),
                after,
                i,
            ) by {
                if i < before.len() {
                    assert(backed(self.state(), before, i));
                    assert(after[i] == before[i]);
                    assert(i > 0 ==> after[i - 1] == before[i - 1]);
                }
            }
        }
        self.steps = Ghost(self.steps@.push(step@));
    }
}

/// A call took these steps on `state`, in this order, and wrote them down in one
/// log. Steps that the call may have written down in another log are not among them.
pub open spec fn did(state: LockState, steps: Seq<Step>) -> bool {
    exists|log: Log|
        {
            &&& #[trigger] log.ended()
            &&& log.state() == state
            &&& log.steps() == steps
            &&& forall|i: int| 0 <= i < steps.len() ==> #[trigger] backed(state, steps, i)
        }
}

/// Locks the mutex, waiting as long as it takes.
pub(crate) fn lock<'a>(mutex: &'a Mutex<Inner>, log: &mut Log) -> (held: HeldInner<'a>)
    requires
        *mutex == old(log).state().mutex(),
    ensures
        mutex_of(held) == *mutex,
        old(log).grew(Step::Locked(contents(held)@), *final(log)),
    opens_invariants [Effect::Mutex.name()]
    no_unwind
{
    let held = held::lock_with(mutex, &LockKey { private: () });
    log.add_step(Ghost(Step::Locked(contents(held)@)));
    held
}

/// Locks the mutex if that can be done without waiting.
fn try_lock<'a>(mutex: &'a Mutex<Inner>, log: &mut Log) -> (r: Option<HeldInner<'a>>)
    requires
        *mutex == old(log).state().mutex(),
    ensures
        match r {
            Some(held) => mutex_of(held) == *mutex && old(log).grew(
                Step::Locked(contents(held)@),
                *final(log),
            ),
            None => held::was_locked(*mutex) && *final(log) == *old(log),
        },
    opens_invariants [Effect::Look.name()]
{
    match held::try_lock(mutex, &LockKey { private: () }) {
        Some(held) => {
            log.add_step(Ghost(Step::Locked(contents(held)@)));
            Some(held)
        },
        None => None,
    }
}

/// Unlocks the mutex.
pub(crate) fn unlock(held: HeldInner<'_>, log: &mut Log)
    requires
        mutex_of(held) == old(log).state().mutex(),
    ensures
        old(log).grew(Step::Unlocked(contents(held)@), *final(log)),
    opens_invariants none
    no_unwind
{
    let ghost left = contents(held)@;
    held::unlock(held);
    assert(unlocked(held));
    log.add_step(Ghost(Step::Unlocked(left)));
}

/// Gives the mutex up until `condition` no longer holds.
pub(crate) fn wait_while<'a>(
    held: HeldInner<'a>,
    state: &LockState,
    condvar: &Condvar,
    condition: WaitWhile,
    log: &mut Log,
) -> (r: HeldInner<'a>)
    requires
        *state == old(log).state(),
        mutex_of(held) == state.mutex(),
        *condvar == state.condvar_for(condition),
    ensures
        mutex_of(r) == state.mutex(),
        !condition.holds(contents(r)@),
        final(log).state() == old(log).state(),
        final(log).steps() == old(log).steps().push(
            Step::GaveUp { condition, given: contents(held)@ },
        ).push(Step::Regained(contents(r)@)),
    opens_invariants [Effect::Wait.name()]
{
    let ghost given = contents(held)@;
    let r = held::wait_with(held, state, condvar, condition, &LockKey { private: () });
    log.add_step(Ghost(Step::GaveUp { condition, given }));
    log.add_step(Ghost(Step::Regained(contents(r)@)));
    r
}

/// Has a callback made.
pub(crate) fn make<C, F: FnOnce() -> C>(maker: F, log: &mut Log) -> (r: C)
    requires
        call_requires(maker, ()),
    ensures
        call_ensures(maker, (), r),
        old(log).grew(Step::MadeCallback, *final(log)),
{
    let r = maker();
    log.add_step(Ghost(Step::MadeCallback));
    r
}

/// Wakes one of the threads that wait while there are write attempts.
pub(crate) fn wake_collector(locking_zero: &Condvar, log: &mut Log)
    requires
        *locking_zero == old(log).state().locking_zero(),
    ensures
        old(log).grew(Step::WokeCollector, *final(log)),
    opens_invariants [Effect::Wake.name()]
    no_unwind
{
    held::wake_one(locking_zero, &LockKey { private: () });
    log.add_step(Ghost(Step::WokeCollector));
}

/// Wakes all the threads that wait while the queue is being collected.
pub(crate) fn wake_attempts(not_dropping: &Condvar, log: &mut Log)
    requires
        *not_dropping == old(log).state().not_dropping(),
    ensures
        old(log).grew(Step::WokeAttempts, *final(log)),
    opens_invariants [Effect::Wake.name()]
    no_unwind
{
    held::wake_all(not_dropping, &LockKey { private: () });
    log.add_step(Ghost(Step::WokeAttempts));
}

/// Locks the value for reading, waiting as long as it takes.
pub(crate) fn lock_read<'a, T>(lock: &'a RwLock<T>, log: &mut Log) -> (r: HeldRead<'a, T>)
    ensures
        r.definite(),
        r.came_from(*lock),
        old(log).grew(Step::LockedRead(id_of(r)), *final(log)),
    opens_invariants [Effect::Read.name()]
{
    let r = HeldRead::read(lock, &LockKey { private: () });
    log.add_step(Ghost(Step::LockedRead(id_of(r))));
    r
}

/// Locks the value for reading if that can be done without waiting.
pub(crate) fn try_lock_read<'a, T>(lock: &'a RwLock<T>, log: &mut Log) -> (r: Option<
    HeldRead<'a, T>,
>)
    ensures
        match r {
            Some(held) => held.definite() && held.came_from(*lock) && old(log).grew(
                Step::LockedRead(id_of(held)),
                *final(log),
            ),
            None => HeldRead::<'a, T>::refused_by(*lock) && old(log).grew(
                Step::Refused,
                *final(log),
            ),
        },
    opens_invariants [Effect::TryRead.name()]
{
    let r = HeldRead::try_read(lock, &LockKey { private: () });
    log.add_step(Ghost(if r is Some { Step::LockedRead(id_of(r->0)) } else { Step::Refused }));
    r
}

/// Locks the value for writing, waiting as long as it takes.
pub(crate) fn lock_write<'a, T>(lock: &'a RwLock<T>, log: &mut Log) -> (r: (
    HeldWrite<'a, T>,
    Writer,
))
    ensures
        r.0.definite(),
        r.0.came_from(*lock),
        r.1.state() == old(log).state(),
        old(log).grew(Step::LockedWrite(id_of(r.0)), *final(log)),
    opens_invariants [Effect::Write.name()]
{
    let held = HeldWrite::write(lock, &LockKey { private: () });
    log.add_step(Ghost(Step::LockedWrite(id_of(held))));
    (held, Writer { state: Ghost(log.state()) })
}

/// Locks the value for writing if that can be done without waiting.
pub(crate) fn try_lock_write<'a, T>(lock: &'a RwLock<T>, log: &mut Log) -> (r: Option<
    (HeldWrite<'a, T>, Writer),
>)
    ensures
        match r {
            Some((held, writer)) => {
                &&& held.definite()
                &&& held.came_from(*lock)
                &&& writer.state() == old(log).state()
                &&& old(log).grew(Step::LockedWrite(id_of(held)), *final(log))
            },
            None => HeldWrite::<'a, T>::refused_by(*lock) && old(log).grew(
                Step::Refused,
                *final(log),
            ),
        },
    opens_invariants [Effect::TryWrite.name()]
{
    match HeldWrite::try_write(lock, &LockKey { private: () }) {
        Some(held) => {
            log.add_step(Ghost(Step::LockedWrite(id_of(held))));
            Some((held, Writer { state: Ghost(log.state()) }))
        },
        None => {
            log.add_step(Ghost(Step::Refused));
            None
        },
    }
}

/// Stops counting a reader whose guard was dropped, in a log of its own.
pub(crate) fn forget_reader(mutex: &Mutex<Inner>, state: &LockState, counted: Counted)
    requires
        *mutex == state.mutex(),
        counted.state() == *state,
    ensures
        exists|before: InnerView|
            did(*state, #[trigger] update_steps(before, before.reader_left())),
    opens_invariants none
    no_unwind
{
    let mut log = Log::fresh(state);
    let mut held = held::lock_with(mutex, &LockKey { private: () });
    let ghost before = contents(held)@;
    log.add_step(Ghost(Step::Locked(before)));
    held.forget_reader(counted);
    unlock(held, &mut log);
    assert(log.steps() == update_steps(before, before.reader_left()));
    log.finish();
}

/// Stops counting a write attempt that was given up, in a log of its own.
pub(crate) fn forget_attempt(
    mutex: &Mutex<Inner>,
    locking_zero: &Condvar,
    state: &LockState,
    attempt: Attempt,
)
    requires
        *mutex == state.mutex(),
        *locking_zero == state.locking_zero(),
        attempt.state() == *state,
    ensures
        exists|before: InnerView| did(*state, #[trigger] win_steps(before)),
    opens_invariants none
    no_unwind
{
    let mut log = Log::fresh(state);
    let mut held = held::lock_with(mutex, &LockKey { private: () });
    let ghost before = contents(held)@;
    log.add_step(Ghost(Step::Locked(before)));
    let last = held.win_attempt(attempt);
    if last {
        held::wake_one(locking_zero, &LockKey { private: () });
        log.add_step(Ghost(Step::WokeCollector));
    }
    unlock(held, &mut log);
    assert(log.steps() == win_steps(before));
    log.finish();
}

/// Lets write attempts in again after a collection that was given up, in a log of its
/// own.
pub(crate) fn forget_collection(
    mutex: &Mutex<Inner>,
    not_dropping: &Condvar,
    state: &LockState,
    collection: Collection,
)
    requires
        *mutex == state.mutex(),
        *not_dropping == state.not_dropping(),
        collection.state() == *state,
    ensures
        exists|before: InnerView| did(*state, #[trigger] reopen_steps(before)),
    opens_invariants none
    no_unwind
{
    let mut log = Log::fresh(state);
    let mut held = held::lock_with(mutex, &LockKey { private: () });
    let ghost before = contents(held)@;
    log.add_step(Ghost(Step::Locked(before)));
    held.reopen(collection);
    held::wake_all(not_dropping, &LockKey { private: () });
    log.add_step(Ghost(Step::WokeAttempts));
    unlock(held, &mut log);
    assert(log.steps() == reopen_steps(before));
    log.finish();
}

/// Looks at the bookkeeping, in a log of its own. Returns `dropping`, `locking` and
/// `readers`, or `None` while another thread is at it.
pub(crate) fn look(mutex: &Mutex<Inner>, state: &LockState) -> (r: Option<(bool, u64, u64)>)
    requires
        *mutex == state.mutex(),
    ensures
        match r {
            Some((dropping, locking, readers)) => exists|before: InnerView| #[trigger]
                did(*state, update_steps(before, before)) && dropping == before.dropping && locking
                    == before.locking && readers == before.readers,
            None => held::was_locked(*mutex),
        },
    opens_invariants [Effect::Look.name()]
{
    let mut log = Log::fresh(state);
    match try_lock(mutex, &mut log) {
        Some(held) => {
            let mut held = held;
            let ghost before = contents(held)@;
            let seen = held.look();
            unlock(held, &mut log);
            assert(log.steps() == update_steps(before, before));
            log.finish();
            Some(seen)
        },
        None => None,
    }
}

/// `guard`, known by `id`, was dropped when the log of the call was `log`.
pub closed spec fn dropped_at<G>(guard: G, id: GuardId, log: Log) -> bool {
    call_ensures(drop_value::<G>, (guard, Ghost(id), Ghost(log)), ())
}

/// `guard` was dropped under the name `id`.
spec fn dropped_as<G>(guard: G, id: GuardId) -> bool {
    exists|log: Log| dropped_at(guard, id, log)
}

/// What `guard` is known by: that under which it is dropped.
pub closed spec fn id_of<G>(guard: G) -> GuardId {
    choose|id: GuardId| dropped_as(guard, id)
}

/// `guard` was dropped, which unlocks the value, when a call on `state` had taken
/// these steps and no more.
pub open spec fn unlocked_after<G>(guard: G, state: LockState, steps: Seq<Step>) -> bool {
    exists|log: Log| #[trigger]
        dropped_at(guard, id_of(guard), log) && log.state() == state && log.steps() == steps
}

/// Unlocks the value by dropping its guard.
pub(crate) fn unlock_value<G>(guard: G, log: &mut Log)
    ensures
        unlocked_after(guard, old(log).state(), old(log).steps()),
        old(log).grew(Step::UnlockedValue(id_of(guard)), *final(log)),
{
    let ghost id = id_of(guard);
    drop_value(guard, Ghost(id), Ghost(*log));
    assert(dropped_at(guard, id, *log));
    log.add_step(Ghost(Step::UnlockedValue(id)));
}

/// Drops its first argument.
fn drop_value<G>(value: G, id: Ghost<GuardId>, at: Ghost<Log>) {
}

/// Runs callbacks, from first to last.
pub(crate) fn run<R: Runner>(callbacks: Vec<QueuedCallback>, runner: R, log: &mut Log) -> (r: (
    R,
    Option<R::Failure>,
))
    ensures
        drained(runner, callbacks@, r.0, r.1),
        old(log).grew(Step::Ran(callbacks@), *final(log)),
{
    let ghost queue = callbacks@;
    let r = run_callbacks(callbacks, runner);
    log.add_step(Ghost(Step::Ran(queue)));
    r
}

} // verus!

//! All users of one lock at once.
//!
//! Each user of a lock goes through the phases of one guard or one write attempt
//! at a time. What it does in a phase is an [`Action`]. The contracts of the library
//! say of which steps a call consists, and the laws on calls below say which actions
//! these steps are. Here any number of users take turns in any order, and the laws on
//! histories say what holds of every state that they can get into.
//!
//! That the threads which use a lock act as such a history is assumed, not proved: a
//! contract speaks of one call, and none speaks of several threads. What makes it so
//! is that the mutex lets one thread at a time at the bookkeeping, which makes each
//! action a whole, and that the `RwLock` keeps a writer alone, gives every guard access
//! to the value as it was last stored, and refuses nobody unless another user has it
//! locked or waits for it.
use vstd::prelude::*;

use crate::callback::QueuedCallback;
use crate::guard::{flushing_read_steps, plain_read_steps, write_steps};
use crate::inner::InnerView;
use crate::lock::{lost_steps, read_steps, won_steps};
use crate::state::{
    begin_steps, close_steps, lose_steps, patient_close_steps, reopen_steps, take_steps,
    update_steps, win_steps,
};
use crate::trace::{GuardId, Step};

verus! {

/// How far a user of the lock has come.
///
/// The callbacks that are ever queued are numbered from zero. A user that has
/// taken the queue holds those from `from` up to, but not including, `to`.
pub enum Phase {
    /// Has no guard and makes no attempt.
    Idle,
    /// Waits until it can lock the value.
    Waiting,
    /// Makes a write attempt and is counted.
    Attempting,
    /// Has the write lock from an attempt that is still counted.
    Won,
    /// Was refused the write lock in an attempt that is still counted.
    Lost,
    /// Has a write guard.
    Writing,
    /// Has a write guard and has begun to collect the queue.
    WriteClosed,
    /// Has a write guard and has taken the queue.
    WriteTaken { from: int, to: int },
    /// Has unlocked the value after taking the queue.
    WriteUnlocked { from: int, to: int },
    /// Has locked the value for reading and is not counted yet.
    ReadLocked,
    /// Has a read guard.
    Reading,
    /// Looks at the value, which it has locked for reading, and is not counted.
    Peeking,
    /// Has unlocked the value and is still counted.
    ReadUnlocked,
    /// Is no longer counted and has begun to collect the queue.
    ReadClosed,
    /// Is no longer counted and has taken the queue.
    ReadTaken { from: int, to: int },
    /// Has let write attempts in again and is about to run what it has taken.
    Running { from: int, to: int },
}

/// What a user of the lock does in one go.
pub enum Action {
    /// Begins a write attempt where the bookkeeping is `open`. It was `before`
    /// when the user came, and the user may have waited since.
    Begin { before: InnerView, open: InnerView },
    /// Locks the value for writing.
    LockWrite { guard: GuardId },
    /// Begins to wait for a lock on the value.
    Wait,
    /// Is refused the value, which it wanted to lock for reading only or for writing.
    Refuse { reading: bool },
    /// Ends a write attempt that got the lock.
    Win { before: InnerView },
    /// Ends a write attempt that did not get the lock.
    Lose { before: InnerView, callback: QueuedCallback },
    /// Locks the value for reading.
    LockRead { guard: GuardId },
    /// Locks the value for reading, only to look at it.
    Peek { guard: GuardId },
    /// Is counted as a reader.
    Enter { before: InnerView },
    /// Stores something in the value.
    Store,
    /// Unlocks the value.
    UnlockValue { guard: GuardId },
    /// Is no longer counted as a reader.
    Leave { before: InnerView },
    /// Is no longer counted as a reader, because its guard was dropped.
    Forget { before: InnerView },
    /// Begins to collect the queue, for a write guard, where the bookkeeping is
    /// `open`. It was `before` when the user came, and the user may have waited
    /// since.
    Close { before: InnerView, open: InnerView },
    /// Takes the queue, whose first callback has the number `from`.
    Take { quiet: InnerView, from: int },
    /// Lets write attempts in again.
    Reopen { before: InnerView },
    /// Runs the callbacks that it has taken.
    Run { callbacks: Seq<QueuedCallback> },
}

impl Action {
    /// The steps that the action consists of.
    pub open spec fn steps(self) -> Seq<Step> {
        match self {
            Action::Begin { before, open } => begin_steps(before, open),
            Action::LockWrite { guard } => seq![Step::LockedWrite(guard)],
            Action::Wait => Seq::empty(),
            Action::Refuse { .. } => seq![Step::Refused],
            Action::Win { before } => win_steps(before),
            Action::Lose { before, callback } => lose_steps(before, callback),
            Action::LockRead { guard } => seq![Step::LockedRead(guard)],
            Action::Peek { guard } => seq![Step::LockedRead(guard)],
            Action::Enter { before } => update_steps(before, before.reader_entered()),
            Action::Store => Seq::empty(),
            Action::UnlockValue { guard } => seq![Step::UnlockedValue(guard)],
            Action::Leave { before } => if before.reader_left().flush_due() {
                close_steps(before, before.reader_left().closed())
            } else {
                update_steps(before, before.reader_left())
            },
            Action::Forget { before } => update_steps(before, before.reader_left()),
            Action::Close { before, open } => patient_close_steps(before, open),
            Action::Take { quiet, .. } => take_steps(quiet),
            Action::Reopen { before } => reopen_steps(before),
            Action::Run { callbacks } => seq![Step::Ran(callbacks)],
        }
    }
}

/// The steps that a number of actions consist of.
pub open spec fn steps_of(actions: Seq<Action>) -> Seq<Step>
    decreases actions.len(),
{
    if actions.len() == 0 {
        Seq::empty()
    } else {
        steps_of(actions.drop_last()) + actions.last().steps()
    }
}

/// What users are counted by.
pub enum Kind {
    /// Write attempts under way.
    Attempt,
    /// Readers.
    Reader,
    /// Collections of the queue.
    Collection,
}

impl Phase {
    /// Whether a user in this phase is of this kind.
    pub open spec fn counts_as(self, kind: Kind) -> bool {
        match kind {
            Kind::Attempt => self is Attempting || self is Won || self is Lost,
            Kind::Reader => self is Reading || self is ReadUnlocked,
            Kind::Collection => {
                ||| self is WriteClosed
                ||| self is WriteTaken
                ||| self is WriteUnlocked
                ||| self is ReadClosed
                ||| self is ReadTaken
            },
        }
    }

    /// Whether a user in this phase has the value locked for writing.
    pub open spec fn has_write_lock(self) -> bool {
        self is Won || self is Writing || self is WriteClosed || self is WriteTaken
    }

    /// Whether a user in this phase has the value locked for reading.
    pub open spec fn has_read_lock(self) -> bool {
        self is ReadLocked || self is Reading || self is Peeking
    }

    /// Whether a user in this phase may be why another one is refused the value.
    pub open spec fn in_the_way(self, reading: bool) -> bool {
        self.has_write_lock() || self is Waiting || (!reading && self.has_read_lock())
    }

    /// The numbers of the callbacks that a user in this phase has taken and not
    /// run yet.
    pub open spec fn holds(self, number: int) -> bool {
        match self {
            Phase::WriteTaken { from, to } => from <= number < to,
            Phase::WriteUnlocked { from, to } => from <= number < to,
            Phase::ReadTaken { from, to } => from <= number < to,
            Phase::Running { from, to } => from <= number < to,
            _ => false,
        }
    }

    /// The phase after an action, or `None` where the action is not to be taken
    /// in this phase.
    pub open spec fn after(self, action: Action) -> Option<Phase> {
        match (self, action) {
            (Phase::Idle, Action::Begin { .. }) => Some(Phase::Attempting),
            (Phase::Attempting, Action::LockWrite { .. }) => Some(Phase::Won),
            (Phase::Attempting, Action::Refuse { reading: false }) => Some(Phase::Lost),
            (Phase::Won, Action::Win { .. }) => Some(Phase::Writing),
            (Phase::Lost, Action::Lose { .. }) => Some(Phase::Idle),
            (Phase::Idle, Action::LockWrite { .. }) => Some(Phase::Writing),
            (Phase::Idle, Action::Refuse { .. }) => Some(Phase::Idle),
            (Phase::Idle, Action::Wait) => Some(Phase::Waiting),
            (Phase::Waiting, Action::LockWrite { .. }) => Some(Phase::Writing),
            (Phase::Waiting, Action::LockRead { .. }) => Some(Phase::ReadLocked),
            (Phase::Writing, Action::Store) => Some(Phase::Writing),
            (Phase::Writing, Action::UnlockValue { .. }) => Some(Phase::Idle),
            (Phase::Writing, Action::Close { .. }) => Some(Phase::WriteClosed),
            (Phase::WriteClosed, Action::Take { quiet, from }) => Some(
                Phase::WriteTaken { from, to: from + quiet.callbacks.len() },
            ),
            (Phase::WriteTaken { from, to }, Action::UnlockValue { .. }) => Some(
                Phase::WriteUnlocked { from, to },
            ),
            (Phase::WriteUnlocked { from, to }, Action::Reopen { .. }) => Some(
                Phase::Running { from, to },
            ),
            (Phase::Idle, Action::LockRead { .. }) => Some(Phase::ReadLocked),
            (Phase::ReadLocked, Action::Enter { .. }) => Some(Phase::Reading),
            (Phase::Idle, Action::Peek { .. }) => Some(Phase::Peeking),
            (Phase::Peeking, Action::UnlockValue { .. }) => Some(Phase::Idle),
            (Phase::Reading, Action::UnlockValue { .. }) => Some(Phase::ReadUnlocked),
            (Phase::ReadUnlocked, Action::Leave { before }) => Some(
                if before.reader_left().flush_due() {
                    Phase::ReadClosed
                } else {
                    Phase::Idle
                },
            ),
            (Phase::ReadUnlocked, Action::Forget { .. }) => Some(Phase::Idle),
            (Phase::ReadClosed, Action::Take { quiet, from }) => Some(
                Phase::ReadTaken { from, to: from + quiet.callbacks.len() },
            ),
            (Phase::ReadTaken { from, to }, Action::Reopen { .. }) => Some(
                Phase::Running { from, to },
            ),
            (Phase::Running { .. }, Action::Run { .. }) => Some(Phase::Idle),
            _ => None,
        }
    }
}

/// The phase after a number of actions, or `None` where they are not to be taken
/// from this phase on.
pub open spec fn phase_after(phase: Phase, actions: Seq<Action>) -> Option<Phase>
    decreases actions.len(),
{
    if actions.len() == 0 {
        Some(phase)
    } else {
        match phase_after(phase, actions.drop_last()) {
            Some(last) => last.after(actions.last()),
            None => None,
        }
    }
}

/// A lock with all its users.
#[verifier::ext_equal]
pub struct System {
    /// The bookkeeping of the lock.
    pub inner: InnerView,
    /// The phase of each user.
    pub users: Seq<Phase>,
    /// All callbacks that were ever queued, in the order in which they were.
    pub queued: Seq<QueuedCallback>,
    /// How many of them were taken out of the queue.
    pub taken: int,
    /// The numbers of those that were run.
    pub ran: Set<int>,
    /// How often something was stored in the value. Between two stores the value
    /// is the same.
    pub stores: int,
}

/// How many users are in a phase of this kind.
pub open spec fn count(users: Seq<Phase>, kind: Kind) -> nat
    decreases users.len(),
{
    if users.len() == 0 {
        0
    } else {
        count(users.drop_last(), kind) + if users.last().counts_as(kind) {
            1nat
        } else {
            0nat
        }
    }
}

impl System {
    /// The lock is new, and none of its users has done anything. There are no
    /// more users than the counters can count.
    pub open spec fn is_new(self) -> bool {
        &&& self.inner == InnerView::idle()
        &&& self.users.len() <= u64::MAX
        &&& forall|i: int| 0 <= i < self.users.len() ==> self.users[i] is Idle
        &&& self.queued.len() == 0
        &&& self.taken == 0
        &&& self.ran.is_empty()
    }

    /// The callbacks with the numbers from `from` up to `to`.
    pub open spec fn batch(self, from: int, to: int) -> Seq<QueuedCallback> {
        self.queued.subrange(from, to)
    }

    /// The action finds what is there.
    pub open spec fn allows(self, user: int, action: Action) -> bool {
        match action {
            Action::Begin { open, .. } => self.inner == open && !open.dropping,
            Action::LockWrite { .. } => forall|i: int|
                0 <= i < self.users.len() ==> !(#[trigger] self.users[i]).has_write_lock()
                    && !self.users[i].has_read_lock(),
            Action::LockRead { .. } | Action::Peek { .. } => forall|i: int|
                0 <= i < self.users.len() ==> !(#[trigger] self.users[i]).has_write_lock(),
            Action::Wait => true,
            Action::Refuse { reading } => exists|i: int|
                0 <= i < self.users.len() && i != user && (#[trigger] self.users[i]).in_the_way(
                    reading,
                ),
            Action::Win { before } => self.inner == before,
            Action::Lose { before, .. } => self.inner == before,
            Action::Enter { before } => self.inner == before,
            Action::Store => true,
            Action::UnlockValue { .. } => true,
            Action::Leave { before } => self.inner == before,
            Action::Forget { before } => self.inner == before,
            Action::Close { open, .. } => self.inner == open && !open.dropping,
            Action::Take { quiet, from } => self.inner == quiet && quiet.locking == 0 && from
                == self.taken,
            Action::Reopen { before } => self.inner == before,
            Action::Run { callbacks } => match self.users[user] {
                Phase::Running { from, to } => callbacks == self.batch(from, to),
                _ => false,
            },
        }
    }

    /// The bookkeeping after the action.
    pub open spec fn inner_after(self, action: Action) -> InnerView {
        match action {
            Action::Begin { .. } => self.inner.attempt_begun(),
            Action::Win { .. } => self.inner.attempt_won(),
            Action::Lose { callback, .. } => self.inner.attempt_lost(callback),
            Action::Enter { .. } => self.inner.reader_entered(),
            Action::Leave { .. } => if self.inner.reader_left().flush_due() {
                self.inner.reader_left().closed()
            } else {
                self.inner.reader_left()
            },
            Action::Forget { .. } => self.inner.reader_left(),
            Action::Close { .. } => self.inner.closed(),
            Action::Take { .. } => self.inner.emptied(),
            Action::Reopen { .. } => self.inner.reopened(),
            _ => self.inner,
        }
    }

    /// One user takes one action.
    pub open spec fn steps_to(self, user: int, action: Action, after: System) -> bool {
        &&& 0 <= user < self.users.len()
        &&& self.users[user].after(action) is Some
        &&& self.allows(user, action)
        &&& after.users == self.users.update(user, self.users[user].after(action)->0)
        &&& after.inner == self.inner_after(action)
        &&& after.queued == match action {
            Action::Lose { callback, .. } => self.queued.push(callback),
            _ => self.queued,
        }
        &&& after.taken == match action {
            Action::Take { .. } => self.queued.len() as int,
            _ => self.taken,
        }
        &&& after.ran == match action {
            Action::Run { .. } => self.ran.union(
                Set::new(|number: int| self.users[user].holds(number)),
            ),
            _ => self.ran,
        }
        &&& after.stores == match action {
            Action::Store => self.stores + 1,
            _ => self.stores,
        }
    }

    /// The bookkeeping counts the users right.
    pub open spec fn counts_right(self) -> bool {
        &&& self.users.len() <= u64::MAX
        &&& self.inner.locking == count(self.users, Kind::Attempt)
        &&& self.inner.readers == count(self.users, Kind::Reader)
    }

    /// A user that has the value locked for writing is the only one that has it
    /// locked at all.
    pub open spec fn write_excludes(self) -> bool {
        forall|i: int, j: int|
            #![trigger self.users[i], self.users[j]]
            0 <= i < self.users.len() && 0 <= j < self.users.len() && i != j
                && self.users[i].has_write_lock() ==> !self.users[j].has_write_lock()
                && !self.users[j].has_read_lock()
    }

    /// The queue holds the callbacks that were queued and not taken, in order.
    pub open spec fn queue_in_order(self) -> bool {
        &&& 0 <= self.taken <= self.queued.len()
        &&& self.inner.callbacks == self.queued.skip(self.taken)
    }

    /// A callback that was taken has been run, or one user is going to run it.
    /// No callback is run twice, and none that was not taken.
    pub open spec fn each_once(self) -> bool {
        &&& forall|number: int|
            #![trigger self.ran.contains(number)]
            self.ran.contains(number) ==> 0 <= number < self.taken
        &&& forall|i: int, number: int|
            #![trigger self.users[i].holds(number)]
            0 <= i < self.users.len() && self.users[i].holds(number) ==> 0 <= number < self.taken
                && !self.ran.contains(number)
        &&& forall|i: int, j: int, number: int|
            #![trigger self.users[i].holds(number), self.users[j].holds(number)]
            0 <= i < self.users.len() && 0 <= j < self.users.len() && self.users[i].holds(number)
                && self.users[j].holds(number) ==> i == j
        &&& forall|number: int|
            #![trigger self.ran.contains(number)]
            0 <= number < self.taken && !self.ran.contains(number) ==> exists|i: int|
                0 <= i < self.users.len() && #[trigger] self.users[i].holds(number)
    }

    /// What holds of every state that a lock and its users can get into.
    pub open spec fn consistent(self) -> bool {
        &&& self.counts_right()
        &&& self.write_excludes()
        &&& self.queue_in_order()
        &&& self.each_once()
    }
}

/// A change of one user's phase changes a count by what that user counts for.
proof fn lemma_count_update(users: Seq<Phase>, user: int, phase: Phase, kind: Kind)
    requires
        0 <= user < users.len(),
    ensures
        count(users.update(user, phase), kind) == count(users, kind) - (if users[user].counts_as(
            kind,
        ) {
            1int
        } else {
            0int
        }) + (if phase.counts_as(kind) {
            1int
        } else {
            0int
        }),
    decreases users.len(),
{
    let updated = users.update(user, phase);
    if user == users.len() - 1 {
        assert(updated.drop_last() == users.drop_last());
    } else {
        assert(updated.drop_last() == users.drop_last().update(user, phase));
        lemma_count_update(users.drop_last(), user, phase, kind);
    }
}

/// There are no more users of a kind than users, and one at least where one
/// user is of that kind.
proof fn lemma_count_bounds(users: Seq<Phase>, kind: Kind)
    ensures
        count(users, kind) <= users.len(),
        forall|i: int|
            0 <= i < users.len() && (#[trigger] users[i]).counts_as(kind) ==> count(users, kind)
                > 0,
        (forall|i: int| 0 <= i < users.len() ==> !(#[trigger] users[i]).counts_as(kind)) ==> count(
            users,
            kind,
        ) == 0,
    decreases users.len(),
{
    if users.len() > 0 {
        let rest = users.drop_last();
        lemma_count_bounds(rest, kind);
        assert forall|i: int|
            0 <= i < users.len() && (#[trigger] users[i]).counts_as(kind) implies count(users, kind)
            > 0 by {
            if i < rest.len() {
                assert(rest[i] == users[i]);
            }
        }
        if forall|i: int| 0 <= i < users.len() ==> !(#[trigger] users[i]).counts_as(kind) {
            assert forall|i: int| 0 <= i < rest.len() implies !(#[trigger] rest[i]).counts_as(
                kind,
            ) by {
                assert(rest[i] == users[i]);
            }
            assert(!users[users.len() - 1].counts_as(kind));
        }
    }
}

proof fn lemma_counts_kept(s: System, user: int, action: Action, after: System)
    requires
        s.counts_right(),
        s.steps_to(user, action, after),
    ensures
        after.counts_right(),
{
    let phase = s.users[user].after(action)->0;
    lemma_count_update(s.users, user, phase, Kind::Attempt);
    lemma_count_update(s.users, user, phase, Kind::Reader);
    lemma_count_bounds(s.users, Kind::Attempt);
    lemma_count_bounds(s.users, Kind::Reader);
    lemma_count_bounds(after.users, Kind::Attempt);
    lemma_count_bounds(after.users, Kind::Reader);
}

proof fn lemma_exclusion_kept(s: System, user: int, action: Action, after: System)
    requires
        s.write_excludes(),
        s.steps_to(user, action, after),
    ensures
        after.write_excludes(),
{
}

proof fn lemma_queue_kept(s: System, user: int, action: Action, after: System)
    requires
        s.queue_in_order(),
        s.steps_to(user, action, after),
    ensures
        after.queue_in_order(),
{
    assert(after.inner.callbacks == after.queued.skip(after.taken));
}

proof fn lemma_once_kept(s: System, user: int, action: Action, after: System)
    requires
        s.queue_in_order(),
        s.each_once(),
        s.steps_to(user, action, after),
    ensures
        after.each_once(),
{
    let old_phase = s.users[user];
    let phase = old_phase.after(action)->0;
    assert(after.users[user] == phase);
    assert(forall|i: int|
        0 <= i < s.users.len() && i != user ==> #[trigger] after.users[i] == s.users[i]);
    // A user's hands change only when it takes the queue or runs what it took.
    assert forall|number: int| #[trigger] phase.holds(number) implies old_phase.holds(number) || (
    action is Take && s.taken <= number < after.taken) by {}
    assert forall|number: int| #[trigger] old_phase.holds(number) implies phase.holds(number)
        || action is Run by {}
    assert forall|i: int, number: int|
        #![trigger after.users[i].holds(number)]
        0 <= i < after.users.len() && after.users[i].holds(number) implies 0 <= number
        < after.taken && !after.ran.contains(number) by {
        if i != user {
            assert(s.users[i].holds(number));
        } else if old_phase.holds(number) {
            assert(s.users[user].holds(number));
        } else {
            assert(!s.ran.contains(number));
        }
    }
    assert forall|i: int, j: int, number: int|
        #![trigger after.users[i].holds(number), after.users[j].holds(number)]
        0 <= i < after.users.len() && 0 <= j < after.users.len() && after.users[i].holds(number)
            && after.users[j].holds(number) implies i == j by {
        if i != user {
            assert(s.users[i].holds(number));
        }
        if j != user {
            assert(s.users[j].holds(number));
        }
        if old_phase.holds(number) {
            assert(s.users[user].holds(number));
        }
    }
    assert forall|number: int|
        #![trigger after.ran.contains(number)]
        0 <= number < after.taken && !after.ran.contains(number) implies exists|i: int|
        0 <= i < after.users.len() && #[trigger] after.users[i].holds(number) by {
        if number < s.taken {
            assert(!s.ran.contains(number));
            let i = choose|i: int| 0 <= i < s.users.len() && #[trigger] s.users[i].holds(number);
            assert(after.users[i].holds(number));
        } else {
            assert(after.users[user].holds(number));
        }
    }
}

/// A user in the phase `from` may take these actions. They lead to the phase `to`
/// and consist of these steps.
pub open spec fn follows(from: Phase, actions: Seq<Action>, to: Phase, steps: Seq<Step>) -> bool {
    &&& phase_after(from, actions) == Some(to)
    &&& steps_of(actions) =~= steps
}

/// A call that gets a read guard follows the protocol.
pub proof fn law_read_call(guard: GuardId, before: InnerView)
    ensures
        follows(
            Phase::Idle,
            seq![Action::LockRead { guard }, Action::Enter { before }],
            Phase::Reading,
            read_steps(guard, before),
        ),
{
    reveal_with_fuel(steps_of, 3);
    reveal_with_fuel(phase_after, 3);
}

/// A call that looks at the value without being counted follows the protocol, and
/// so does the drop of what it looked through.
pub proof fn law_peek_call(guard: GuardId)
    ensures
        follows(
            Phase::Idle,
            seq![Action::Peek { guard }],
            Phase::Peeking,
            seq![Step::LockedRead(guard)],
        ),
        follows(
            Phase::Peeking,
            seq![Action::UnlockValue { guard }],
            Phase::Idle,
            seq![Step::UnlockedValue(guard)],
        ),
{
    reveal_with_fuel(steps_of, 2);
    reveal_with_fuel(phase_after, 2);
}

/// A call that gets a write guard without an attempt follows the protocol.
pub proof fn law_write_call(guard: GuardId)
    ensures
        follows(
            Phase::Idle,
            seq![Action::LockWrite { guard }],
            Phase::Writing,
            seq![Step::LockedWrite(guard)],
        ),
{
    reveal_with_fuel(steps_of, 2);
    reveal_with_fuel(phase_after, 2);
}

/// A call that is refused a guard and queues nothing follows the protocol.
pub proof fn law_refused_call(reading: bool)
    ensures
        follows(Phase::Idle, seq![Action::Refuse { reading }], Phase::Idle, seq![Step::Refused]),
{
    reveal_with_fuel(steps_of, 2);
    reveal_with_fuel(phase_after, 2);
}

/// A write attempt that gets the lock follows the protocol.
pub proof fn law_won_call(guard: GuardId, before: InnerView, open: InnerView, later: InnerView)
    ensures
        follows(
            Phase::Idle,
            seq![
                Action::Begin { before, open },
                Action::LockWrite { guard },
                Action::Win { before: later },
            ],
            Phase::Writing,
            won_steps(guard, before, open, later),
        ),
{
    reveal_with_fuel(steps_of, 4);
    reveal_with_fuel(phase_after, 4);
}

/// A write attempt that does not get the lock follows the protocol.
pub proof fn law_lost_call(
    before: InnerView,
    open: InnerView,
    later: InnerView,
    callback: QueuedCallback,
)
    ensures
        follows(
            Phase::Idle,
            seq![
                Action::Begin { before, open },
                Action::Refuse { reading: false },
                Action::Lose { before: later, callback },
            ],
            Phase::Idle,
            lost_steps(before, open, later, callback),
        ),
{
    reveal_with_fuel(steps_of, 4);
    reveal_with_fuel(phase_after, 4);
}

/// The release of a read guard that leaves the queue alone follows the protocol.
pub proof fn law_plain_read_release(guard: GuardId, before: InnerView)
    requires
        !before.reader_left().flush_due(),
    ensures
        follows(
            Phase::Reading,
            seq![Action::UnlockValue { guard }, Action::Leave { before }],
            Phase::Idle,
            plain_read_steps(guard, before),
        ),
{
    reveal_with_fuel(steps_of, 3);
    reveal_with_fuel(phase_after, 3);
}

/// The release of a read guard that has the queue run follows the protocol.
pub proof fn law_flushing_read_release(
    guard: GuardId,
    before: InnerView,
    quiet: InnerView,
    later: InnerView,
    from: int,
)
    requires
        before.reader_left().flush_due(),
    ensures
        follows(
            Phase::Reading,
            seq![
                Action::UnlockValue { guard },
                Action::Leave { before },
                Action::Take { quiet, from },
                Action::Reopen { before: later },
                Action::Run { callbacks: quiet.callbacks },
            ],
            Phase::Idle,
            flushing_read_steps(guard, before, quiet, later),
        ),
{
    reveal_with_fuel(steps_of, 6);
    reveal_with_fuel(phase_after, 6);
}

/// The release of a write guard follows the protocol.
pub proof fn law_write_release(
    guard: GuardId,
    before: InnerView,
    open: InnerView,
    quiet: InnerView,
    later: InnerView,
    from: int,
)
    ensures
        follows(
            Phase::Writing,
            seq![
                Action::Close { before, open },
                Action::Take { quiet, from },
                Action::UnlockValue { guard },
                Action::Reopen { before: later },
                Action::Run { callbacks: quiet.callbacks },
            ],
            Phase::Idle,
            write_steps(guard, before, open, quiet, later),
        ),
{
    reveal_with_fuel(steps_of, 6);
    reveal_with_fuel(phase_after, 6);
}

/// The drop of a read guard that is not released follows the protocol.
pub proof fn law_read_drop(guard: GuardId, before: InnerView)
    ensures
        follows(
            Phase::Reading,
            seq![Action::UnlockValue { guard }, Action::Forget { before }],
            Phase::Idle,
            seq![Step::UnlockedValue(guard)] + update_steps(before, before.reader_left()),
        ),
{
    reveal_with_fuel(steps_of, 3);
    reveal_with_fuel(phase_after, 3);
}

/// The drop of a write guard that is not released follows the protocol.
pub proof fn law_write_drop(guard: GuardId)
    ensures
        follows(
            Phase::Writing,
            seq![Action::UnlockValue { guard }],
            Phase::Idle,
            seq![Step::UnlockedValue(guard)],
        ),
{
    reveal_with_fuel(steps_of, 2);
    reveal_with_fuel(phase_after, 2);
}

/// A lock is new at first, and then its users take one action after the other.
pub open spec fn is_history(states: Seq<System>, moves: Seq<(int, Action)>) -> bool {
    &&& states.len() == moves.len() + 1
    &&& states[0].is_new()
    &&& forall|k: int|
        #![trigger moves[k]]
        0 <= k < moves.len() ==> states[k].steps_to(moves[k].0, moves[k].1, states[k + 1])
}

/// Every state that a lock and its users get into is consistent: the counters
/// count right, a writer is alone, the queue is in order, and every callback is
/// run once at most.
pub proof fn law_always_consistent(states: Seq<System>, moves: Seq<(int, Action)>, k: int)
    requires
        is_history(states, moves),
        0 <= k < states.len(),
    ensures
        states[k].consistent(),
    decreases k,
{
    if k == 0 {
        let s = states[0];
        lemma_count_bounds(s.users, Kind::Attempt);
        lemma_count_bounds(s.users, Kind::Reader);
        assert(s.inner.callbacks == s.queued.skip(0));
    } else {
        law_always_consistent(states, moves, k - 1);
        let (user, action) = moves[k - 1];
        assert(states[k - 1].steps_to(user, action, states[k - 1 + 1]));
        lemma_counts_kept(states[k - 1], user, action, states[k]);
        lemma_exclusion_kept(states[k - 1], user, action, states[k]);
        lemma_queue_kept(states[k - 1], user, action, states[k]);
        lemma_once_kept(states[k - 1], user, action, states[k]);
    }
}

/// The counters never wrap around: each action changes them by one at most, up
/// or down, as plain numbers.
pub proof fn law_counters_never_wrap(states: Seq<System>, moves: Seq<(int, Action)>, k: int)
    requires
        is_history(states, moves),
        0 <= k < moves.len(),
    ensures
        states[k + 1].inner.locking == states[k].inner.locking + match moves[k].1 {
            Action::Begin { .. } => 1int,
            Action::Win { .. } => -1int,
            Action::Lose { .. } => -1int,
            _ => 0int,
        },
        states[k + 1].inner.readers == states[k].inner.readers + match moves[k].1 {
            Action::Enter { .. } => 1int,
            Action::Leave { .. } => -1int,
            Action::Forget { .. } => -1int,
            _ => 0int,
        },
{
    law_always_consistent(states, moves, k);
    law_always_consistent(states, moves, k + 1);
    let (user, action) = moves[k];
    let s = states[k];
    assert(s.steps_to(user, action, states[k + 1]));
    let phase = s.users[user].after(action)->0;
    lemma_count_update(s.users, user, phase, Kind::Attempt);
    lemma_count_update(s.users, user, phase, Kind::Reader);
}

/// A collection takes everything that was queued up to then, in order, while no
/// write attempt is under way.
pub proof fn law_collection_takes_all(states: Seq<System>, moves: Seq<(int, Action)>, k: int)
    requires
        is_history(states, moves),
        0 <= k < moves.len(),
        moves[k].1 is Take,
    ensures
        ({
            let quiet = moves[k].1->quiet;
            let from = moves[k].1->Take_from;
            let to = from + quiet.callbacks.len();
            &&& quiet.callbacks == states[k].queued.skip(from)
            &&& to == states[k].queued.len()
            &&& forall|number: int|
                from <= number < to <==> #[trigger] states[k + 1].users[moves[k].0].holds(number)
            &&& states[k + 1].taken == states[k + 1].queued.len()
            &&& states[k + 1].inner.callbacks.len() == 0
            &&& forall|i: int|
                0 <= i < states[k].users.len() ==> !(#[trigger] states[k].users[i]).counts_as(
                    Kind::Attempt,
                )
        }),
{
    law_always_consistent(states, moves, k);
    let (user, action) = moves[k];
    assert(states[k].steps_to(user, action, states[k + 1]));
    lemma_count_bounds(states[k].users, Kind::Attempt);
}

/// A user that is about to run callbacks has nothing locked, and runs what it
/// took in the order in which it was queued. Each of these callbacks is run then
/// for the first time.
pub proof fn law_callbacks_run_in_order(states: Seq<System>, moves: Seq<(int, Action)>, k: int)
    requires
        is_history(states, moves),
        0 <= k < moves.len(),
        moves[k].1 is Run,
    ensures
        ({
            let phase = states[k].users[moves[k].0];
            &&& !phase.has_write_lock() && !phase.has_read_lock()
            &&& moves[k].1->callbacks == states[k].queued.subrange(
                phase->Running_from,
                phase->Running_to,
            )
            &&& forall|number: int|
                #![trigger states[k].ran.contains(number)]
                #![trigger states[k + 1].ran.contains(number)]
                phase->Running_from <= number < phase->Running_to ==> !states[k].ran.contains(
                    number,
                ) && states[k + 1].ran.contains(number)
        }),
{
    law_always_consistent(states, moves, k);
    let (user, action) = moves[k];
    let s = states[k];
    assert(s.steps_to(user, action, states[k + 1]));
    assert forall|number: int|
        #![trigger s.ran.contains(number)]
        #![trigger states[k + 1].ran.contains(number)]
        s.users[user]->Running_from <= number < s.users[user]->Running_to implies !s.ran.contains(
        number,
    ) && states[k + 1].ran.contains(number) by {
        assert(s.users[user].holds(number));
    }
}

/// What is run stays run, and what is queued stays queued under its number.
pub proof fn law_history_is_kept(states: Seq<System>, moves: Seq<(int, Action)>, k: int)
    requires
        is_history(states, moves),
        0 <= k < moves.len(),
    ensures
        states[k].ran.subset_of(states[k + 1].ran),
        states[k].queued.is_prefix_of(states[k + 1].queued),
        states[k].taken <= states[k + 1].taken,
{
    law_always_consistent(states, moves, k);
    let (user, action) = moves[k];
    assert(states[k].steps_to(user, action, states[k + 1]));
}

/// A callback that was in the queue when a collection took it is run after that,
/// or one user is going to run it.
pub proof fn law_collected_callback_is_run(
    states: Seq<System>,
    moves: Seq<(int, Action)>,
    k: int,
    later: int,
    number: int,
)
    requires
        is_history(states, moves),
        0 <= k < moves.len(),
        moves[k].1 is Take,
        k < later < states.len(),
        0 <= number < states[k].queued.len(),
    ensures
        states[later].ran.contains(number) || exists|i: int|
            0 <= i < states[later].users.len() && #[trigger] states[later].users[i].holds(number),
{
    law_collection_takes_all(states, moves, k);
    lemma_history_grows(states, moves, k + 1, later);
    law_always_consistent(states, moves, later);
}

/// What was taken stays taken, and what was queued keeps its number.
proof fn lemma_history_grows(states: Seq<System>, moves: Seq<(int, Action)>, k: int, later: int)
    requires
        is_history(states, moves),
        0 <= k <= later < states.len(),
    ensures
        states[k].taken <= states[later].taken,
        states[k].queued.is_prefix_of(states[later].queued),
    decreases later,
{
    if k < later {
        lemma_history_grows(states, moves, k, later - 1);
        law_history_is_kept(states, moves, later - 1);
        let (first, middle, last) = (
            states[k].queued,
            states[later - 1].queued,
            states[later].queued,
        );
        assert forall|i: int| 0 <= i < first.len() implies first[i] == last[i] by {
            assert(middle[i] == last.subrange(0, middle.len() as int)[i]);
            assert(first[i] == middle.subrange(0, first.len() as int)[i]);
        }
        assert(first == last.subrange(0, first.len() as int));
    }
}

/// Where all users are idle, every callback has been run once or is still in the
/// queue: none is lost.
pub proof fn law_no_callback_is_lost(states: Seq<System>, moves: Seq<(int, Action)>, k: int)
    requires
        is_history(states, moves),
        0 <= k < states.len(),
        forall|i: int| 0 <= i < states[k].users.len() ==> states[k].users[i] is Idle,
    ensures
        forall|number: int|
            0 <= number < states[k].taken <==> #[trigger] states[k].ran.contains(number),
        states[k].inner.callbacks == states[k].queued.skip(states[k].taken),
        states[k].inner.locking == 0,
        states[k].inner.readers == 0,
{
    law_always_consistent(states, moves, k);
    let s = states[k];
    lemma_count_bounds(s.users, Kind::Attempt);
    lemma_count_bounds(s.users, Kind::Reader);
    assert forall|number: int| 0 <= number < s.taken implies #[trigger] s.ran.contains(number) by {
        if !s.ran.contains(number) {
            let i = choose|i: int| 0 <= i < s.users.len() && #[trigger] s.users[i].holds(number);
            assert(s.users[i] is Idle);
        }
    }
}

impl System {
    /// One collection at most is under way. Write attempts are held up exactly
    /// while one is, and nothing is queued between the moment when the queue was
    /// taken and the moment when write attempts are let in again.
    pub open spec fn orderly(self) -> bool {
        &&& count(self.users, Kind::Collection) <= 1
        &&& self.inner.dropping == (count(self.users, Kind::Collection) == 1)
        &&& forall|i: int|
            0 <= i < self.users.len() && ((#[trigger] self.users[i]) is WriteTaken
                || self.users[i] is WriteUnlocked || self.users[i] is ReadTaken)
                ==> self.inner.locking == 0 && self.inner.callbacks.len() == 0
    }
}

proof fn lemma_orderly_kept(s: System, user: int, action: Action, after: System)
    requires
        s.consistent(),
        s.orderly(),
        s.steps_to(user, action, after),
    ensures
        after.orderly(),
{
    let phase = s.users[user].after(action)->0;
    lemma_count_update(s.users, user, phase, Kind::Collection);
    lemma_count_bounds(s.users, Kind::Collection);
    lemma_count_bounds(s.users, Kind::Attempt);
    assert(after.users[user] == phase);
    assert(forall|i: int|
        0 <= i < s.users.len() && i != user ==> #[trigger] after.users[i] == s.users[i]);
}

/// Every state that a lock and its users get into is orderly: collections never
/// overlap, and write attempts are held up exactly while one is under way.
pub proof fn law_always_orderly(states: Seq<System>, moves: Seq<(int, Action)>, k: int)
    requires
        is_history(states, moves),
        0 <= k < states.len(),
    ensures
        states[k].orderly(),
    decreases k,
{
    if k == 0 {
        lemma_count_bounds(states[0].users, Kind::Collection);
    } else {
        law_always_orderly(states, moves, k - 1);
        law_always_consistent(states, moves, k - 1);
        let (user, action) = moves[k - 1];
        assert(states[k - 1].steps_to(user, action, states[k - 1 + 1]));
        lemma_orderly_kept(states[k - 1], user, action, states[k]);
    }
}

/// The last reader to go collects the queue unless it is empty or a collection is
/// under way. A reader that does not collect leaves the queue as it is. Where it is
/// the last one and the queue is not empty, another user has begun a collection and
/// has yet to take the queue.
pub proof fn law_last_reader_collects(states: Seq<System>, moves: Seq<(int, Action)>, k: int)
    requires
        is_history(states, moves),
        0 <= k < moves.len(),
        moves[k].1 is Leave,
    ensures
        ({
            let last = count(states[k].users, Kind::Reader) == 1;
            let due = last && states[k].inner.callbacks.len() > 0;
            let collecting = count(states[k].users, Kind::Collection) > 0;
            let phase = states[k + 1].users[moves[k].0];
            &&& if due && !collecting {
                phase is ReadClosed
            } else {
                phase is Idle && states[k + 1].inner.callbacks == states[k].inner.callbacks
            }
            &&& due && collecting ==> exists|i: int|
                0 <= i < states[k + 1].users.len() && ((#[trigger] states[k + 1].users[i])
                    is WriteClosed || states[k + 1].users[i] is ReadClosed)
        }),
{
    law_always_orderly(states, moves, k);
    law_always_consistent(states, moves, k);
    let (user, action) = moves[k];
    let s = states[k];
    assert(s.steps_to(user, action, states[k + 1]));
    lemma_count_bounds(s.users, Kind::Reader);
    lemma_count_bounds(s.users, Kind::Collection);
    assert(s.users[user].counts_as(Kind::Reader));
    if count(s.users, Kind::Collection) > 0 && s.inner.callbacks.len() > 0 {
        let i = choose|i: int|
            0 <= i < s.users.len() && (#[trigger] s.users[i]).counts_as(Kind::Collection);
        assert(states[k + 1].users[i] == s.users[i]);
    }
}

/// A write guard leaves nothing behind: when it unlocks the value, every callback
/// that was queued up to then has been run or is in the hands of a user that is going
/// to run it, and no write attempt that was refused is still to queue one.
pub proof fn law_write_guard_leaves_nothing(states: Seq<System>, moves: Seq<(int, Action)>, k: int)
    requires
        is_history(states, moves),
        0 <= k < moves.len(),
        moves[k].1 is UnlockValue,
        states[k].users[moves[k].0] is WriteTaken,
    ensures
        states[k + 1].inner.callbacks.len() == 0,
        states[k + 1].taken == states[k + 1].queued.len(),
        forall|i: int|
            0 <= i < states[k + 1].users.len() ==> !(#[trigger] states[k + 1].users[i]).counts_as(
                Kind::Attempt,
            ),
        forall|number: int|
            0 <= number < states[k + 1].queued.len() ==> #[trigger] states[k + 1].ran.contains(
                number,
            ) || exists|i: int|
                0 <= i < states[k + 1].users.len() && #[trigger] states[k + 1].users[i].holds(
                    number,
                ),
{
    law_always_orderly(states, moves, k);
    law_always_consistent(states, moves, k);
    law_always_consistent(states, moves, k + 1);
    let (user, action) = moves[k];
    assert(states[k].steps_to(user, action, states[k + 1]));
    lemma_count_bounds(states[k + 1].users, Kind::Attempt);
}

/// The attempt of `user` that was refused before `k` has queued its callback before
/// `later`, in the move `j`.
pub open spec fn queued_in(
    states: Seq<System>,
    moves: Seq<(int, Action)>,
    user: int,
    k: int,
    j: int,
    later: int,
) -> bool {
    &&& k <= j < later
    &&& moves[j].0 == user
    &&& moves[j].1 is Lose
    &&& states[later].queued.len() > states[j].queued.len()
    &&& states[later].queued[states[j].queued.len() as int] == moves[j].1->callback
}

/// A user whose attempt was refused is counted until it queues its callback.
proof fn lemma_refused_until_queued(
    states: Seq<System>,
    moves: Seq<(int, Action)>,
    user: int,
    k: int,
    later: int,
)
    requires
        is_history(states, moves),
        0 <= k <= later < states.len(),
        0 <= user < states[k].users.len(),
        states[k].users[user] is Lost,
    ensures
        states[later].users.len() == states[k].users.len(),
        states[later].users[user] is Lost || exists|j: int| #[trigger]
            queued_in(states, moves, user, k, j, later),
    decreases later,
{
    if k < later {
        lemma_refused_until_queued(states, moves, user, k, later - 1);
        let (mover, action) = moves[later - 1];
        let s = states[later - 1];
        assert(s.steps_to(mover, action, states[later - 1 + 1]));
        lemma_history_grows(states, moves, later - 1, later);
        if !(s.users[user] is Lost) {
            let j = choose|j: int| #[trigger] queued_in(states, moves, user, k, j, later - 1);
            let number = states[j].queued.len() as int;
            assert(s.queued[number] == states[later].queued.subrange(
                0,
                s.queued.len() as int,
            )[number]);
            assert(queued_in(states, moves, user, k, j, later));
        } else if mover == user {
            assert(queued_in(states, moves, user, k, later - 1, later));
        }
    }
}

/// A write guard has every callback called whose attempt was refused while it was
/// held: any attempt that was refused before the guard unlocks the value has queued
/// its callback by then. From that moment on the callback is out of the queue, and it
/// has been run or is in the hands of a user that is going to run it.
pub proof fn law_refused_attempt_is_answered(
    states: Seq<System>,
    moves: Seq<(int, Action)>,
    refusal: int,
    k: int,
    later: int,
)
    requires
        is_history(states, moves),
        0 <= refusal < k < moves.len(),
        moves[refusal].1 is Refuse,
        states[refusal].users[moves[refusal].0] is Attempting,
        moves[k].1 is UnlockValue,
        states[k].users[moves[k].0] is WriteTaken,
        k <= later < states.len(),
    ensures
        exists|j: int|
            {
                let number = states[j].queued.len() as int;
                &&& #[trigger] queued_in(states, moves, moves[refusal].0, refusal + 1, j, k)
                &&& number < states[later].taken
                &&& states[later].ran.contains(number) || exists|i: int|
                    0 <= i < states[later].users.len() && #[trigger] states[later].users[i].holds(
                        number,
                    )
            },
{
    let (user, action) = moves[refusal];
    assert(states[refusal].steps_to(user, action, states[refusal + 1]));
    assert(states[refusal + 1].users[user] is Lost);
    lemma_refused_until_queued(states, moves, user, refusal + 1, k);
    law_always_orderly(states, moves, k);
    law_always_consistent(states, moves, k);
    law_always_consistent(states, moves, later);
    lemma_history_grows(states, moves, k, later);
    lemma_count_bounds(states[k].users, Kind::Attempt);
    assert(states[k].steps_to(moves[k].0, moves[k].1, states[k + 1]));
    let j = choose|j: int| #[trigger] queued_in(states, moves, user, refusal + 1, j, k);
    assert(queued_in(states, moves, user, refusal + 1, j, k));
    assert(0 <= states[j].queued.len() < states[later].taken);
}

/// While a user has the value locked for writing, nobody else gets a lock on it, and
/// while a user has it locked for reading, nobody gets a write lock: every attempt is
/// refused.
pub proof fn law_locked_value_is_refused(
    states: Seq<System>,
    moves: Seq<(int, Action)>,
    k: int,
    holder: int,
)
    requires
        is_history(states, moves),
        0 <= k < moves.len(),
        0 <= holder < states[k].users.len(),
    ensures
        states[k].users[holder].has_write_lock() ==> !(moves[k].1 is LockWrite)
            && !(moves[k].1 is LockRead) && !(moves[k].1 is Peek),
        states[k].users[holder].has_read_lock() ==> !(moves[k].1 is LockWrite),
{
    assert(states[k].steps_to(moves[k].0, moves[k].1, states[k + 1]));
}

/// The value does not change while a user has it locked for reading, and while a user
/// has it locked for writing only that user changes it.
pub proof fn law_locked_value_is_kept(
    states: Seq<System>,
    moves: Seq<(int, Action)>,
    k: int,
    holder: int,
)
    requires
        is_history(states, moves),
        0 <= k < moves.len(),
        0 <= holder < states[k].users.len(),
        states[k].users[holder].has_read_lock() || (states[k].users[holder].has_write_lock()
            && moves[k].0 != holder),
    ensures
        states[k + 1].stores == states[k].stores,
{
    law_always_consistent(states, moves, k);
    let (user, action) = moves[k];
    assert(states[k].steps_to(user, action, states[k + 1]));
    if action is Store {
        assert(states[k].users[user].has_write_lock());
        assert(states[k].users[holder].has_read_lock()
            || states[k].users[holder].has_write_lock());
    }
}

/// What was stored last is what is found later, as long as nothing is stored between.
pub proof fn law_stored_value_is_found(
    states: Seq<System>,
    moves: Seq<(int, Action)>,
    k: int,
    later: int,
)
    requires
        is_history(states, moves),
        0 <= k <= later < states.len(),
        forall|m: int| k <= m < later ==> !((#[trigger] moves[m]).1 is Store),
    ensures
        states[later].stores == states[k].stores,
    decreases later,
{
    if k < later {
        law_stored_value_is_found(states, moves, k, later - 1);
        let (user, action) = moves[later - 1];
        assert(states[later - 1].steps_to(user, action, states[later - 1 + 1]));
    }
}

/// What is in the queue stays there until a collection takes it.
proof fn lemma_nothing_taken_between(
    states: Seq<System>,
    moves: Seq<(int, Action)>,
    k: int,
    later: int,
)
    requires
        is_history(states, moves),
        0 <= k <= later < states.len(),
        forall|m: int| k <= m < later ==> !((#[trigger] moves[m]).1 is Take),
    ensures
        states[later].taken == states[k].taken,
    decreases later,
{
    if k < later {
        lemma_nothing_taken_between(states, moves, k, later - 1);
        let (user, action) = moves[later - 1];
        assert(states[later - 1].steps_to(user, action, states[later - 1 + 1]));
    }
}

/// The next collection takes a callback that was queued: it is then in the hands of the
/// user that collects, and of no other, and was not run before.
pub proof fn law_next_collection_takes_the_callback(
    states: Seq<System>,
    moves: Seq<(int, Action)>,
    j: int,
    k: int,
)
    requires
        is_history(states, moves),
        0 <= j < k < moves.len(),
        moves[j].1 is Lose,
        moves[k].1 is Take,
        forall|m: int| j < m < k ==> !((#[trigger] moves[m]).1 is Take),
    ensures
        ({
            let number = states[j].queued.len() as int;
            &&& states[k + 1].queued[number] == moves[j].1->callback
            &&& forall|i: int|
                0 <= i < states[k + 1].users.len() ==> (#[trigger] states[k + 1].users[i].holds(
                    number,
                ) <==> i == moves[k].0)
            &&& !states[k + 1].ran.contains(number)
        }),
{
    let number = states[j].queued.len() as int;
    assert(states[j].steps_to(moves[j].0, moves[j].1, states[j + 1]));
    law_always_consistent(states, moves, j);
    lemma_nothing_taken_between(states, moves, j + 1, k);
    lemma_history_grows(states, moves, j + 1, k + 1);
    law_collection_takes_all(states, moves, k);
    lemma_history_grows(states, moves, j + 1, k);
    law_always_consistent(states, moves, k + 1);
    assert(states[k].steps_to(moves[k].0, moves[k].1, states[k + 1]));
    assert(states[k + 1].users[moves[k].0].holds(number));
    assert(states[j + 1].queued[number] == states[k + 1].queued.subrange(
        0,
        states[j + 1].queued.len() as int,
    )[number]);
}

/// What was run stays run.
proof fn lemma_ran_grows(states: Seq<System>, moves: Seq<(int, Action)>, k: int, later: int)
    requires
        is_history(states, moves),
        0 <= k <= later < states.len(),
    ensures
        states[k].ran.subset_of(states[later].ran),
    decreases later,
{
    if k < later {
        lemma_ran_grows(states, moves, k, later - 1);
        law_history_is_kept(states, moves, later - 1);
    }
}

/// No callback is run twice: no two users, and no user at two times, run what stands
/// under one number.
pub proof fn law_no_callback_is_run_twice(
    states: Seq<System>,
    moves: Seq<(int, Action)>,
    k: int,
    later: int,
    number: int,
)
    requires
        is_history(states, moves),
        0 <= k < later < moves.len(),
        moves[k].1 is Run,
        moves[later].1 is Run,
        states[k].users[moves[k].0].holds(number),
    ensures
        !states[later].users[moves[later].0].holds(number),
{
    assert(states[k].steps_to(moves[k].0, moves[k].1, states[k + 1]));
    assert(states[later].steps_to(moves[later].0, moves[later].1, states[later + 1]));
    assert(states[k + 1].ran.contains(number));
    lemma_ran_grows(states, moves, k + 1, later);
    law_always_consistent(states, moves, later);
    assert(states[later].ran.contains(number));
}

/// From the move `close` on, by which a write guard began to collect the queue, up to
/// the state `later` before it takes the queue: the guard is still held, nothing is taken,
/// and the attempt of `user` is still under way without the lock or has queued its
/// callback.
spec fn closed_until(
    states: Seq<System>,
    moves: Seq<(int, Action)>,
    close: int,
    user: int,
    later: int,
) -> bool {
    &&& states[later].users.len() == states[close].users.len()
    &&& states[later].users[moves[close].0] is WriteClosed
    &&& states[later].taken == states[close].taken
    &&& {
        ||| states[later].users[user] is Attempting
        ||| states[later].users[user] is Lost
        ||| exists|j: int| #[trigger] queued_in(states, moves, user, close + 1, j, later)
    }
}

proof fn lemma_closed_until(
    states: Seq<System>,
    moves: Seq<(int, Action)>,
    close: int,
    user: int,
    later: int,
)
    requires
        is_history(states, moves),
        0 <= close < later < states.len(),
        moves[close].1 is Close,
        0 <= user < states[close].users.len(),
        states[close].users[user].counts_as(Kind::Attempt),
        forall|m: int| close < m < later ==> (#[trigger] moves[m]).0 != moves[close].0,
    ensures
        closed_until(states, moves, close, user, later),
    decreases later,
{
    let writer = moves[close].0;
    if later == close + 1 {
        law_always_consistent(states, moves, close);
        assert(states[close].steps_to(writer, moves[close].1, states[close + 1]));
        assert(states[close].users[writer].has_write_lock());
        assert(!states[close].users[user].has_write_lock());
    } else {
        lemma_closed_until(states, moves, close, user, later - 1);
        let (mover, action) = moves[later - 1];
        let s = states[later - 1];
        assert(s.steps_to(mover, action, states[later - 1 + 1]));
        law_always_orderly(states, moves, later - 1);
        law_always_consistent(states, moves, later - 1);
        law_locked_value_is_refused(states, moves, later - 1, writer);
        lemma_history_grows(states, moves, later - 1, later);
        lemma_one_collector(s.users, writer, mover);
        if !(s.users[user] is Attempting) && !(s.users[user] is Lost) {
            let j = choose|j: int| #[trigger]
                queued_in(states, moves, user, close + 1, j, later - 1);
            let number = states[j].queued.len() as int;
            assert(s.queued[number] == states[later].queued.subrange(
                0,
                s.queued.len() as int,
            )[number]);
            assert(queued_in(states, moves, user, close + 1, j, later));
        } else if mover == user && s.users[user] is Lost {
            assert(queued_in(states, moves, user, close + 1, later - 1, later));
        }
    }
}

/// Where one collection at most is under way, only one user is at it.
proof fn lemma_one_collector(users: Seq<Phase>, i: int, j: int)
    requires
        count(users, Kind::Collection) <= 1,
        0 <= i < users.len(),
        0 <= j < users.len(),
        i != j,
        users[i].counts_as(Kind::Collection),
    ensures
        !users[j].counts_as(Kind::Collection),
{
    lemma_count_update(users, i, Phase::Idle, Kind::Collection);
    let rest = users.update(i, Phase::Idle);
    lemma_count_bounds(rest, Kind::Collection);
    assert(rest[j] == users[j]);
}

/// An attempt that is under way when a write guard begins to collect the queue does not
/// get the lock, and its callback is in the batch of that guard.
pub proof fn law_attempt_under_way_is_in_the_batch(
    states: Seq<System>,
    moves: Seq<(int, Action)>,
    close: int,
    k: int,
    user: int,
)
    requires
        is_history(states, moves),
        0 <= close < k < moves.len(),
        moves[close].1 is Close,
        moves[k].1 is Take,
        moves[k].0 == moves[close].0,
        forall|m: int| close < m < k ==> (#[trigger] moves[m]).0 != moves[close].0,
        0 <= user < states[close].users.len(),
        states[close].users[user].counts_as(Kind::Attempt),
    ensures
        exists|j: int|
            {
                &&& #[trigger] queued_in(states, moves, user, close + 1, j, k)
                &&& states[k + 1].users[moves[k].0].holds(states[j].queued.len() as int)
            },
{
    lemma_closed_until(states, moves, close, user, k);
    law_collection_takes_all(states, moves, k);
    assert(states[k].steps_to(moves[k].0, moves[k].1, states[k + 1]));
    law_always_consistent(states, moves, close);
    let j = choose|j: int| #[trigger] queued_in(states, moves, user, close + 1, j, k);
    assert(queued_in(states, moves, user, close + 1, j, k));
    lemma_history_grows(states, moves, close, j);
    assert(states[k + 1].users[moves[k].0].holds(states[j].queued.len() as int));
}

/// A user is refused the value only where another one is in the way: a lock that nobody
/// else has and nobody waits for is to be had, and for reading it is to be had as well
/// where others only read.
pub proof fn law_free_lock_refuses_nobody(states: Seq<System>, moves: Seq<(int, Action)>, k: int)
    requires
        is_history(states, moves),
        0 <= k < moves.len(),
        moves[k].1 is Refuse,
    ensures
        exists|i: int|
            {
                &&& 0 <= i < states[k].users.len()
                &&& i != moves[k].0
                &&& {
                    ||| (#[trigger] states[k].users[i]).has_write_lock()
                    ||| states[k].users[i] is Waiting
                    ||| states[k].users[i].has_read_lock() && !moves[k].1->reading
                }
            },
{
    assert(states[k].steps_to(moves[k].0, moves[k].1, states[k + 1]));
}

/// A user that makes an attempt and has not got the lock has nothing locked: it is never
/// in its own way.
pub proof fn law_refused_user_has_nothing(states: Seq<System>, moves: Seq<(int, Action)>, k: int)
    requires
        is_history(states, moves),
        0 <= k < moves.len(),
        moves[k].1 is Refuse,
    ensures
        !states[k].users[moves[k].0].has_write_lock(),
        !states[k].users[moves[k].0].has_read_lock(),
{
    assert(states[k].steps_to(moves[k].0, moves[k].1, states[k + 1]));
}

} // verus!

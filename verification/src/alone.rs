//! One thread alone with a lock.
//!
//! What a call finds behind the mutex is in general what other threads left there. A
//! thread that is alone finds what it left itself, and then the steps that the contracts
//! give determine the bookkeeping after each call, what each release runs, and which
//! release runs a callback.
use vstd::prelude::*;

use crate::callback::QueuedCallback;
use crate::guard::{flushing_read_steps, plain_read_steps, write_steps};
use crate::inner::InnerView;
use crate::lock::{lost_steps, read_steps, won_steps};
use crate::state::{
    begin_steps, close_steps, lose_steps, patient_close_steps, reopen_steps, take_steps,
    update_steps, win_steps,
};
use crate::trace::{GuardId, Step};

verus! {

/// What these steps leave behind the mutex, where `found` was behind it before.
pub open spec fn left_after(found: InnerView, steps: Seq<Step>) -> InnerView
    decreases steps.len(),
{
    if steps.len() == 0 {
        found
    } else {
        match steps.last() {
            Step::Unlocked(left) => left,
            Step::GaveUp { given, .. } => given,
            _ => left_after(found, steps.drop_last()),
        }
    }
}

/// Nobody else was at the bookkeeping while these steps were taken: whoever took them
/// found `found` at first, and what it had left itself from then on.
pub open spec fn undisturbed(found: InnerView, steps: Seq<Step>) -> bool
    decreases steps.len(),
{
    steps.len() > 0 ==> {
        &&& undisturbed(found, steps.drop_last())
        &&& match steps.last() {
            Step::Locked(seen) => seen == left_after(found, steps.drop_last()),
            Step::Regained(seen) => seen == left_after(found, steps.drop_last()),
            _ => true,
        }
    }
}

/// A call on a lock or on one of its guards, with what its contract says of its steps.
pub enum Call {
    /// `read` or `try_read`, where it gets a guard.
    Read { guard: GuardId, before: InnerView },
    /// `write` or `try_write`, where it gets a guard.
    Write { guard: GuardId },
    /// `peek`, where it gets to see the value.
    Peek { guard: GuardId },
    /// `try_read`, `try_write` or `peek`, where it is refused.
    Refused,
    /// `try_write_or` or `try_write_or_else`, where it gets a guard.
    Won { guard: GuardId, before: InnerView, open: InnerView, later: InnerView },
    /// `try_write_or` or `try_write_or_else`, where it queues a callback.
    Lost { before: InnerView, open: InnerView, later: InnerView, queued: QueuedCallback },
    /// `release` of a read guard that leaves the queue alone.
    PlainRelease { guard: GuardId, before: InnerView },
    /// `release` of a read guard that has the queue run.
    FlushingRelease { guard: GuardId, before: InnerView, quiet: InnerView, later: InnerView },
    /// The drop of a read guard, as far as it concerns the bookkeeping.
    ReadDrop { before: InnerView },
    /// `release` of a write guard.
    WriteRelease {
        guard: GuardId,
        before: InnerView,
        open: InnerView,
        quiet: InnerView,
        later: InnerView,
    },
}

impl Call {
    /// The steps that the call consists of.
    pub open spec fn steps(self) -> Seq<Step> {
        match self {
            Call::Read { guard, before } => read_steps(guard, before),
            Call::Write { guard } => seq![Step::LockedWrite(guard)],
            Call::Peek { guard } => seq![Step::LockedRead(guard)],
            Call::Refused => seq![Step::Refused],
            Call::Won { guard, before, open, later } => won_steps(guard, before, open, later),
            Call::Lost { before, open, later, queued } => lost_steps(before, open, later, queued),
            Call::PlainRelease { guard, before } => plain_read_steps(guard, before),
            Call::FlushingRelease { guard, before, quiet, later } => flushing_read_steps(
                guard,
                before,
                quiet,
                later,
            ),
            Call::ReadDrop { before } => update_steps(before, before.reader_left()),
            Call::WriteRelease { guard, before, open, quiet, later } => write_steps(
                guard,
                before,
                open,
                quiet,
                later,
            ),
        }
    }

    /// What else the contract of the call says.
    pub open spec fn agreed(self) -> bool {
        match self {
            Call::Won { open, .. } => !open.dropping,
            Call::Lost { open, .. } => !open.dropping,
            Call::PlainRelease { before, .. } => !before.reader_left().flush_due(),
            Call::FlushingRelease { before, quiet, .. } => before.reader_left().flush_due()
                && quiet.locking == 0,
            Call::WriteRelease { open, quiet, .. } => !open.dropping && quiet.locking == 0,
            _ => true,
        }
    }

    /// Whether the call has the queue run.
    pub open spec fn collects(self) -> bool {
        self is FlushingRelease || self is WriteRelease
    }

    /// The callbacks that the call runs, from first to last.
    pub open spec fn ran(self) -> Seq<QueuedCallback> {
        match self {
            Call::FlushingRelease { quiet, .. } => quiet.callbacks,
            Call::WriteRelease { quiet, .. } => quiet.callbacks,
            _ => Seq::empty(),
        }
    }

    /// What the call leaves behind the mutex where it finds `found` and is alone.
    pub open spec fn leaves(self, found: InnerView) -> InnerView {
        match self {
            Call::Read { .. } => found.reader_entered(),
            Call::Lost { queued, .. } => InnerView {
                callbacks: found.callbacks.push(queued),
                ..found
            },
            Call::PlainRelease { .. } => found.reader_left(),
            Call::ReadDrop { .. } => found.reader_left(),
            Call::FlushingRelease { .. } => found.reader_left().emptied(),
            Call::WriteRelease { .. } => found.emptied(),
            _ => found,
        }
    }
}

/// Steps in two parts: the second part finds what the first one left.
proof fn lemma_two_parts(found: InnerView, first: Seq<Step>, second: Seq<Step>)
    ensures
        left_after(found, first + second) == left_after(left_after(found, first), second),
        undisturbed(found, first + second) <==> undisturbed(found, first) && undisturbed(
            left_after(found, first),
            second,
        ),
    decreases second.len(),
{
    if second.len() == 0 {
        assert(first + second == first);
    } else {
        assert((first + second).drop_last() == first + second.drop_last());
        assert((first + second).last() == second.last());
        lemma_two_parts(found, first, second.drop_last());
    }
}

/// A step that is not on the bookkeeping.
proof fn lemma_other_step(found: InnerView, step: Step)
    requires
        !(step is Locked) && !(step is Unlocked) && !(step is GaveUp) && !(step is Regained),
    ensures
        left_after(found, seq![step]) == found,
        undisturbed(found, seq![step]),
{
    reveal_with_fuel(left_after, 2);
    reveal_with_fuel(undisturbed, 2);
}

/// The parts that calls are made of, each one undisturbed.
proof fn lemma_parts(found: InnerView)
    ensures
        forall|before: InnerView, open: InnerView| #[trigger]
            undisturbed(found, begin_steps(before, open)) ==> before == found && open == found,
        forall|before: InnerView, open: InnerView| #[trigger]
            left_after(found, begin_steps(before, open)) == open.attempt_begun(),
        forall|before: InnerView| #[trigger]
            undisturbed(found, win_steps(before)) ==> before == found,
        forall|before: InnerView| #[trigger]
            left_after(found, win_steps(before)) == before.attempt_won(),
        forall|before: InnerView, queued: QueuedCallback| #[trigger]
            undisturbed(found, lose_steps(before, queued)) ==> before == found,
        forall|before: InnerView, queued: QueuedCallback| #[trigger]
            left_after(found, lose_steps(before, queued)) == before.attempt_lost(queued),
        forall|before: InnerView, after: InnerView| #[trigger]
            undisturbed(found, update_steps(before, after)) ==> before == found,
        forall|before: InnerView, after: InnerView| #[trigger]
            left_after(found, update_steps(before, after)) == after,
        forall|before: InnerView, closed: InnerView| #[trigger]
            undisturbed(found, close_steps(before, closed)) ==> before == found,
        forall|before: InnerView, closed: InnerView| #[trigger]
            left_after(found, close_steps(before, closed)) == closed,
        forall|before: InnerView, open: InnerView| #[trigger]
            undisturbed(found, patient_close_steps(before, open)) ==> before == found && open
                == found,
        forall|before: InnerView, open: InnerView| #[trigger]
            left_after(found, patient_close_steps(before, open)) == open.closed(),
        forall|quiet: InnerView| #[trigger]
            undisturbed(found, take_steps(quiet)) ==> quiet == found,
        forall|quiet: InnerView| #[trigger]
            left_after(found, take_steps(quiet)) == quiet.emptied(),
        forall|before: InnerView| #[trigger]
            undisturbed(found, reopen_steps(before)) ==> before == found,
        forall|before: InnerView| #[trigger]
            left_after(found, reopen_steps(before)) == before.reopened(),
{
    reveal_with_fuel(left_after, 5);
    reveal_with_fuel(undisturbed, 5);
}

/// What a call does when nobody comes between: it leaves the bookkeeping as it was, but
/// for the one thing it is for, and a release that collects runs all that was queued. A
/// read guard's release collects exactly if that is due.
pub proof fn law_undisturbed_call(found: InnerView, call: Call)
    requires
        call.agreed(),
        undisturbed(found, call.steps()),
    ensures
        left_after(found, call.steps()) == call.leaves(found),
        call.collects() ==> call.ran() == found.callbacks,
        call is FlushingRelease ==> found.reader_left().flush_due(),
        call is PlainRelease ==> !found.reader_left().flush_due(),
{
    match call {
        Call::Read { guard, before } => {
            lemma_two_parts(
                found,
                seq![Step::LockedRead(guard)],
                update_steps(before, before.reader_entered()),
            );
            lemma_other_step(found, Step::LockedRead(guard));
            lemma_parts(found);
        },
        Call::Write { guard } => {
            lemma_other_step(found, Step::LockedWrite(guard));
        },
        Call::Peek { guard } => {
            lemma_other_step(found, Step::LockedRead(guard));
        },
        Call::Refused => {
            lemma_other_step(found, Step::Refused);
        },
        Call::Won { guard, before, open, later } => {
            let begun = begin_steps(before, open);
            let locked = begun + seq![Step::LockedWrite(guard)];
            lemma_two_parts(found, locked, win_steps(later));
            lemma_two_parts(found, begun, seq![Step::LockedWrite(guard)]);
            lemma_other_step(found.attempt_begun(), Step::LockedWrite(guard));
            lemma_parts(found);
            lemma_parts(found.attempt_begun());
        },
        Call::Lost { before, open, later, queued } => {
            let begun = begin_steps(before, open);
            let refused = begun + seq![Step::Refused];
            lemma_two_parts(found, refused, lose_steps(later, queued));
            lemma_two_parts(found, begun, seq![Step::Refused]);
            lemma_other_step(found.attempt_begun(), Step::Refused);
            lemma_parts(found);
            lemma_parts(found.attempt_begun());
        },
        Call::PlainRelease { guard, before } => {
            lemma_two_parts(
                found,
                seq![Step::UnlockedValue(guard)],
                update_steps(before, before.reader_left()),
            );
            lemma_other_step(found, Step::UnlockedValue(guard));
            lemma_parts(found);
        },
        Call::FlushingRelease { guard, before, quiet, later } => {
            let unlocked = seq![Step::UnlockedValue(guard)];
            let closed = unlocked + close_steps(before, before.reader_left().closed());
            let taken = closed + take_steps(quiet);
            let reopened = taken + reopen_steps(later);
            let closed_view = found.reader_left().closed();
            lemma_two_parts(found, reopened, seq![Step::Ran(quiet.callbacks)]);
            lemma_two_parts(found, taken, reopen_steps(later));
            lemma_two_parts(found, closed, take_steps(quiet));
            lemma_two_parts(
                found,
                unlocked,
                close_steps(before, before.reader_left().closed()),
            );
            lemma_other_step(found, Step::UnlockedValue(guard));
            lemma_parts(found);
            lemma_parts(closed_view);
            lemma_parts(closed_view.emptied());
            lemma_other_step(closed_view.emptied().reopened(), Step::Ran(quiet.callbacks));
        },
        Call::ReadDrop { before } => {
            lemma_parts(found);
        },
        Call::WriteRelease { guard, before, open, quiet, later } => {
            let closed = patient_close_steps(before, open);
            let taken = closed + take_steps(quiet);
            let unlocked = taken + seq![Step::UnlockedValue(guard)];
            let reopened = unlocked + reopen_steps(later);
            lemma_two_parts(found, reopened, seq![Step::Ran(quiet.callbacks)]);
            lemma_two_parts(found, unlocked, reopen_steps(later));
            lemma_two_parts(found, taken, seq![Step::UnlockedValue(guard)]);
            lemma_two_parts(found, closed, take_steps(quiet));
            lemma_parts(found);
            lemma_parts(found.closed());
            lemma_other_step(found.closed().emptied(), Step::UnlockedValue(guard));
            lemma_parts(found.closed().emptied());
            lemma_other_step(found.closed().emptied().reopened(), Step::Ran(quiet.callbacks));
        },
    }
}

/// The callbacks that these calls queued and did not run, oldest first.
pub open spec fn pending(calls: Seq<Call>) -> Seq<QueuedCallback>
    decreases calls.len(),
{
    if calls.len() == 0 {
        Seq::empty()
    } else if calls.last().collects() {
        Seq::empty()
    } else {
        match calls.last() {
            Call::Lost { queued, .. } => pending(calls.drop_last()).push(queued),
            _ => pending(calls.drop_last()),
        }
    }
}

/// How many read guards these calls made and did not give back.
pub open spec fn live_readers(calls: Seq<Call>) -> int
    decreases calls.len(),
{
    if calls.len() == 0 {
        0
    } else {
        live_readers(calls.drop_last()) + match calls.last() {
            Call::Read { .. } => 1int,
            Call::PlainRelease { .. } => -1int,
            Call::FlushingRelease { .. } => -1int,
            Call::ReadDrop { .. } => -1int,
            _ => 0int,
        }
    }
}

/// The life of a lock that one thread uses alone: one call after the other, each of
/// which finds what the one before left. No read guard is given back twice, and there
/// are never more than the counter can count.
pub open spec fn is_life(calls: Seq<Call>, views: Seq<InnerView>) -> bool {
    &&& views.len() == calls.len() + 1
    &&& views[0] == InnerView::idle()
    &&& forall|i: int|
        #![trigger calls[i]]
        0 <= i < calls.len() ==> {
            &&& calls[i].agreed()
            &&& undisturbed(views[i], calls[i].steps())
            &&& views[i + 1] == left_after(views[i], calls[i].steps())
        }
    &&& forall|i: int|
        0 <= i <= calls.len() ==> 0 <= #[trigger] live_readers(calls.take(i)) <= u64::MAX
}

/// Between two calls of a thread that is alone, no attempt and no collection is under
/// way, the readers are those whose guards live, and the queue holds what was queued and
/// not run.
pub proof fn law_bookkeeping_between_calls(calls: Seq<Call>, views: Seq<InnerView>, i: int)
    requires
        is_life(calls, views),
        0 <= i <= calls.len(),
    ensures
        !views[i].dropping,
        views[i].locking == 0,
        views[i].readers == live_readers(calls.take(i)),
        views[i].callbacks == pending(calls.take(i)),
    decreases i,
{
    if i > 0 {
        law_bookkeeping_between_calls(calls, views, i - 1);
        let call = calls[i - 1];
        law_undisturbed_call(views[i - 1], call);
        assert(views[i] == left_after(views[i - 1], call.steps()));
        assert(calls.take(i).drop_last() == calls.take(i - 1));
        assert(calls.take(i).last() == call);
        assert(0 <= live_readers(calls.take(i)) <= u64::MAX);
    } else {
        assert(calls.take(0).len() == 0);
    }
}

/// A release that collects runs what was queued and not run, in the order in which it
/// was queued. A read guard's release collects exactly if it is that of the last read
/// guard and something is queued; a write guard's always does. No other call runs
/// anything.
pub proof fn law_release_runs_what_is_pending(calls: Seq<Call>, views: Seq<InnerView>, i: int)
    requires
        is_life(calls, views),
        0 <= i < calls.len(),
    ensures
        calls[i].collects() ==> calls[i].ran() == pending(calls.take(i)),
        !calls[i].collects() ==> calls[i].ran().len() == 0,
        calls[i] is FlushingRelease ==> live_readers(calls.take(i)) == 1 && pending(
            calls.take(i),
        ).len() > 0,
        calls[i] is PlainRelease ==> live_readers(calls.take(i)) > 1 || pending(
            calls.take(i),
        ).len() == 0,
{
    law_bookkeeping_between_calls(calls, views, i);
    law_undisturbed_call(views[i], calls[i]);
    assert(calls.take(i + 1).drop_last() == calls.take(i));
    assert(calls.take(i + 1).last() == calls[i]);
    assert(0 <= live_readers(calls.take(i + 1)) <= u64::MAX);
}

/// A callback that was queued stays in the queue, behind those that were there before,
/// until a release collects.
proof fn lemma_stays_pending(calls: Seq<Call>, j: int, k: int)
    requires
        0 <= j < k <= calls.len(),
        calls[j] is Lost,
        forall|m: int| j < m < k ==> !(#[trigger] calls[m]).collects(),
    ensures
        pending(calls.take(k)).len() > pending(calls.take(j)).len(),
        pending(calls.take(k))[pending(calls.take(j)).len() as int] == calls[j]->queued,
    decreases k,
{
    assert(calls.take(k).drop_last() == calls.take(k - 1));
    assert(calls.take(k).last() == calls[k - 1]);
    if j < k - 1 {
        lemma_stays_pending(calls, j, k - 1);
    }
}

/// A callback that a failed attempt leaves behind is run by the next release that
/// collects, behind those that were queued before it, and by no call between.
pub proof fn law_next_release_runs_the_callback(
    calls: Seq<Call>,
    views: Seq<InnerView>,
    j: int,
    k: int,
)
    requires
        is_life(calls, views),
        0 <= j < k < calls.len(),
        calls[j] is Lost,
        calls[k].collects(),
        forall|m: int| j < m < k ==> !(#[trigger] calls[m]).collects(),
    ensures
        ({
            let place = pending(calls.take(j)).len() as int;
            &&& place < calls[k].ran().len()
            &&& calls[k].ran()[place] == calls[j]->queued
        }),
        forall|m: int| j <= m < k ==> (#[trigger] calls[m]).ran().len() == 0,
        views[k + 1].callbacks.len() == 0,
{
    lemma_stays_pending(calls, j, k);
    law_release_runs_what_is_pending(calls, views, k);
    law_bookkeeping_between_calls(calls, views, k + 1);
    assert(calls.take(k + 1).last() == calls[k]);
}

/// What a release has run is not run again: a later one runs only what calls after it
/// queued.
pub proof fn law_later_release_runs_later_callbacks(
    calls: Seq<Call>,
    views: Seq<InnerView>,
    k: int,
    later: int,
)
    requires
        is_life(calls, views),
        0 <= k < later < calls.len(),
        calls[k].collects(),
        calls[later].collects(),
    ensures
        calls[later].ran() == pending(calls.subrange(k + 1, later)),
{
    law_release_runs_what_is_pending(calls, views, later);
    lemma_pending_since(calls, k, later);
}

proof fn lemma_pending_since(calls: Seq<Call>, k: int, later: int)
    requires
        0 <= k < later <= calls.len(),
        calls[k].collects(),
    ensures
        pending(calls.take(later)) == pending(calls.subrange(k + 1, later)),
    decreases later,
{
    assert(calls.take(later).last() == calls[later - 1]);
    assert(calls.take(later).drop_last() == calls.take(later - 1));
    if k + 1 < later {
        let since = calls.subrange(k + 1, later);
        assert(since.last() == calls[later - 1]);
        assert(since.drop_last() == calls.subrange(k + 1, later - 1));
        lemma_pending_since(calls, k, later - 1);
    }
}

/// Two callbacks that failed attempts leave behind, one after the other, are run in that
/// order by the next release that collects.
pub proof fn law_refused_callbacks_run_in_order(
    calls: Seq<Call>,
    views: Seq<InnerView>,
    first: int,
    second: int,
    k: int,
)
    requires
        is_life(calls, views),
        0 <= first < second < k < calls.len(),
        calls[first] is Lost,
        calls[second] is Lost,
        calls[k].collects(),
        forall|m: int| first < m < k ==> !(#[trigger] calls[m]).collects(),
    ensures
        exists|i: int, j: int|
            0 <= i < j < calls[k].ran().len() && #[trigger] calls[k].ran()[i]
                == calls[first]->queued && #[trigger] calls[k].ran()[j] == calls[second]->queued,
{
    lemma_stays_pending(calls, first, k);
    lemma_stays_pending(calls, second, k);
    lemma_stays_pending(calls, first, second);
    law_release_runs_what_is_pending(calls, views, k);
    let i = pending(calls.take(first)).len() as int;
    let j = pending(calls.take(second)).len() as int;
    assert(calls[k].ran()[i] == calls[first]->queued && calls[k].ran()[j] == calls[second]->queued);
}

/// How many of these calls were failed attempts.
pub open spec fn failed_attempts(calls: Seq<Call>) -> nat
    decreases calls.len(),
{
    if calls.len() == 0 {
        0
    } else {
        failed_attempts(calls.drop_last()) + if calls.last() is Lost {
            1nat
        } else {
            0nat
        }
    }
}

proof fn lemma_pending_counts(calls: Seq<Call>)
    requires
        forall|m: int| 0 <= m < calls.len() ==> !(#[trigger] calls[m]).collects(),
    ensures
        pending(calls).len() == failed_attempts(calls),
    decreases calls.len(),
{
    if calls.len() > 0 {
        let rest = calls.drop_last();
        assert forall|m: int| 0 <= m < rest.len() implies !(#[trigger] rest[m]).collects() by {
            assert(rest[m] == calls[m]);
        }
        lemma_pending_counts(rest);
        assert(calls.last() == calls[calls.len() - 1]);
    }
}

/// A release that collects runs one callback for each attempt that failed since the last
/// such release, however many there were: none is left out, and none is added.
pub proof fn law_release_runs_one_for_each_refusal(
    calls: Seq<Call>,
    views: Seq<InnerView>,
    last: int,
    k: int,
)
    requires
        is_life(calls, views),
        -1 <= last < k < calls.len(),
        last >= 0 ==> calls[last].collects(),
        calls[k].collects(),
        forall|m: int| last < m < k ==> !(#[trigger] calls[m]).collects(),
    ensures
        calls[k].ran().len() == failed_attempts(calls.subrange(last + 1, k)),
{
    let since = calls.subrange(last + 1, k);
    law_release_runs_what_is_pending(calls, views, k);
    if last >= 0 {
        lemma_pending_since(calls, last, k);
    } else {
        assert(since == calls.take(k));
    }
    assert forall|m: int| 0 <= m < since.len() implies !(#[trigger] since[m]).collects() by {
        assert(since[m] == calls[last + 1 + m]);
    }
    lemma_pending_counts(since);
}

/// The queue changes only by an attempt that fails, which adds its callback at the end, and
/// by a release that collects, which empties it. A call that takes no step on the
/// bookkeeping leaves all of it as it is: `write`, `try_write`, `peek`, and a `try_read`
/// that is refused.
pub proof fn law_queue_is_left_alone(calls: Seq<Call>, views: Seq<InnerView>, i: int)
    requires
        is_life(calls, views),
        0 <= i < calls.len(),
    ensures
        views[i + 1].callbacks == match calls[i] {
            Call::Lost { queued, .. } => views[i].callbacks.push(queued),
            Call::FlushingRelease { .. } => Seq::empty(),
            Call::WriteRelease { .. } => Seq::empty(),
            _ => views[i].callbacks,
        },
        (forall|n: int|
            0 <= n < calls[i].steps().len() ==> !((#[trigger] calls[i].steps()[n]) is Locked))
            ==> views[i + 1] == views[i],
        calls[i] is Write || calls[i] is Peek || calls[i] is Refused ==> views[i + 1] == views[i],
{
    let call = calls[i];
    law_undisturbed_call(views[i], call);
    assert(views[i + 1] == left_after(views[i], call.steps()));
    if views[i + 1] != views[i] {
        match call {
            Call::Read { guard, before } => {
                assert(call.steps()[1] is Locked);
            },
            Call::Won { guard, before, open, later } => {
                assert(call.steps()[0] is Locked);
            },
            Call::Lost { before, open, later, queued } => {
                assert(call.steps()[0] is Locked);
            },
            Call::PlainRelease { guard, before } => {
                assert(call.steps()[1] is Locked);
            },
            Call::FlushingRelease { guard, before, quiet, later } => {
                assert(call.steps()[1] is Locked);
            },
            Call::ReadDrop { before } => {
                assert(call.steps()[0] is Locked);
            },
            Call::WriteRelease { guard, before, open, quiet, later } => {
                assert(call.steps()[0] is Locked);
            },
            _ => {},
        }
    }
}

} // verus!

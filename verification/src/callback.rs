//! Queued callbacks and the loop that runs them.
use vstd::prelude::*;

verus! {

/// What can wait in the queue of a lock: every `FnOnce() + Send`.
pub trait Callback: Send {
    /// Whether `call` may be called.
    spec fn callable(&self) -> bool;

    /// Whether the callback was run and came to its end.
    spec fn returned(&self) -> bool;

    /// Runs the callback and consumes it.
    fn call(self: Box<Self>)
        requires
            self.callable(),
        ensures
            self.returned(),
    ;
}

impl<F: FnOnce() + Send> Callback for F {
    open spec fn callable(&self) -> bool {
        call_requires(*self, ())
    }

    open spec fn returned(&self) -> bool {
        call_ensures(*self, (), ())
    }

    fn call(self: Box<Self>) {
        (*self)()
    }
}

/// A callback in the queue of a lock.
pub struct QueuedCallback {
    callback: Box<dyn Callback>,
}

impl QueuedCallback {
    #[verifier::type_invariant]
    spec fn callable(self) -> bool {
        self.callback.callable()
    }

    /// Boxes a callback.
    fn boxed<C: FnOnce() + Send + 'static>(callback: C) -> (r: Self)
        requires
            call_requires(callback, ()),
        ensures
            r.returned() == call_ensures(callback, (), ()),
    {
        let callback: Box<dyn Callback> = Box::new(callback);
        QueuedCallback { callback }
    }

    /// Whether the callback was run and came to its end.
    pub closed spec fn returned(self) -> bool {
        self.callback.returned()
    }

    /// Runs the callback and consumes it.
    pub fn call(self)
        ensures
            self.returned(),
    {
        proof {
            use_type_invariant(&self);
        }
        self.callback.call()
    }
}

/// Whether `queued` is the box that `callback` was moved into.
pub closed spec fn boxes<C: FnOnce() + Send + 'static>(
    callback: C,
    queued: QueuedCallback,
) -> bool {
    call_ensures(QueuedCallback::boxed::<C>, (callback,), queued)
}

/// To run what stands in the queue is to run the callback that was queued.
pub proof fn law_queued_callback_is_the_callback<C: FnOnce() + Send + 'static>(
    callback: C,
    queued: QueuedCallback,
)
    requires
        boxes(callback, queued),
    ensures
        queued.returned() == call_ensures(callback, (), ()),
{
}

/// Whether `maker` may be called, and what it makes may be called too.
pub open spec fn makes_callback<C: FnOnce(), F: FnOnce() -> C>(maker: F) -> bool {
    &&& call_requires(maker, ())
    &&& forall|made: C| #[trigger] call_ensures(maker, (), made) ==> call_requires(made, ())
}

/// Moves `callback` into a box and the box to the end of `queue`.
pub fn enqueue<C: FnOnce() + Send + 'static>(queue: &mut Vec<QueuedCallback>, callback: C)
    requires
        call_requires(callback, ()),
    ensures
        exists|queued: QueuedCallback| #[trigger]
            boxes(callback, queued) && final(queue)@ == old(queue)@.push(queued),
{
    let queued = QueuedCallback::boxed(callback);
    assert(boxes(callback, queued));
    queue.push(queued);
}

/// The first outcome that is not `None`, or `None` where there is none.
pub open spec fn first_some<P>(outcomes: Seq<Option<P>>) -> Option<P>
    decreases outcomes.len(),
{
    if outcomes.len() == 0 {
        None
    } else if first_some(outcomes.drop_last()) is Some {
        first_some(outcomes.drop_last())
    } else {
        outcomes.last()
    }
}

/// `first_some` is what it says: where it is a failure, that is one of the
/// outcomes, and all before it are `None`; where it is `None`, all are.
pub proof fn law_first_some_is_first<P>(outcomes: Seq<Option<P>>)
    ensures
        match first_some(outcomes) {
            Some(failure) => exists|i: int|
                0 <= i < outcomes.len() && #[trigger] outcomes[i] == Some(failure) && forall|j: int|
                    0 <= j < i ==> (#[trigger] outcomes[j]) is None,
            None => forall|j: int| 0 <= j < outcomes.len() ==> (#[trigger] outcomes[j]) is None,
        },
    decreases outcomes.len(),
{
    if outcomes.len() > 0 {
        let rest = outcomes.drop_last();
        law_first_some_is_first(rest);
        assert(forall|j: int| 0 <= j < rest.len() ==> rest[j] == #[trigger] outcomes[j]);
        if let Some(failure) = first_some(rest) {
            let i = choose|i: int|
                0 <= i < rest.len() && #[trigger] rest[i] == Some(failure) && forall|j: int|
                    0 <= j < i ==> (#[trigger] rest[j]) is None;
            assert(outcomes[i] == Some(failure));
        } else {
            let last = outcomes.len() - 1;
            assert(forall|j: int| 0 <= j < last ==> (#[trigger] outcomes[j]) is None);
            assert(outcomes[last] == outcomes.last());
        }
    }
}

/// What carries a callback out.
pub trait Runner: Sized {
    /// What is left of a callback that failed.
    type Failure;

    /// Runs `callback`. Returns the runner for the next callback, and `None`
    /// where this one came to its end.
    fn run(self, callback: QueuedCallback) -> (r: (Self, Option<Self::Failure>))
        ensures
            r.1 is None ==> callback.returned(),
    ;
}

/// Shows that the contract of a runner can be met: this one calls the callback.
#[allow(dead_code)]
struct Caller;

impl Runner for Caller {
    type Failure = ();

    fn run(self, callback: QueuedCallback) -> (r: (Self, Option<()>)) {
        callback.call();
        (self, None)
    }
}

/// A runner in the state `before` ran `callback`, returned `outcome` and was then in
/// the state `after`. A callback without a failure came to its end.
pub open spec fn ran_one<R: Runner>(
    before: R,
    callback: QueuedCallback,
    after: R,
    outcome: Option<R::Failure>,
) -> bool {
    &&& call_ensures(R::run, (before, callback), (after, outcome))
    &&& outcome is None ==> callback.returned()
}

/// Whether a runner went from `states[0]` through all of `states` by running
/// `callbacks` one after the other, from first to last, with these `outcomes`.
pub open spec fn ran_all<R: Runner>(
    states: Seq<R>,
    callbacks: Seq<QueuedCallback>,
    outcomes: Seq<Option<R::Failure>>,
) -> bool {
    &&& states.len() == callbacks.len() + 1
    &&& outcomes.len() == callbacks.len()
    &&& forall|i: int|
        #![trigger outcomes[i]]
        0 <= i < callbacks.len() ==> ran_one(states[i], callbacks[i], states[i + 1], outcomes[i])
}

/// Whether running all of `callbacks` in order takes a runner from `before` to
/// `after`, and `first` is the failure of the first callback that failed.
pub open spec fn drained<R: Runner>(
    before: R,
    callbacks: Seq<QueuedCallback>,
    after: R,
    first: Option<R::Failure>,
) -> bool {
    exists|states: Seq<R>, outcomes: Seq<Option<R::Failure>>| #[trigger]
        ran_all(states, callbacks, outcomes) && states[0] == before && states.last() == after
            && first == first_some(outcomes)
}

/// The callbacks of a queue that was run came to their end: all of them where there is
/// no failure, and else all before the one whose failure was the first.
pub proof fn law_drained_callbacks_returned<R: Runner>(
    before: R,
    callbacks: Seq<QueuedCallback>,
    after: R,
    first: Option<R::Failure>,
)
    requires
        drained(before, callbacks, after, first),
    ensures
        match first {
            None => forall|j: int|
                0 <= j < callbacks.len() ==> (#[trigger] callbacks[j]).returned(),
            Some(failure) => exists|states: Seq<R>, outcomes: Seq<Option<R::Failure>>, i: int|
                #![trigger ran_all(states, callbacks, outcomes), outcomes[i]]
                {
                    &&& ran_all(states, callbacks, outcomes)
                    &&& 0 <= i < callbacks.len()
                    &&& outcomes[i] == Some(failure)
                    &&& forall|j: int| 0 <= j < i ==> (#[trigger] callbacks[j]).returned()
                },
        },
{
    let (states, outcomes) = choose|states: Seq<R>, outcomes: Seq<Option<R::Failure>>| #[trigger]
        ran_all(states, callbacks, outcomes) && states[0] == before && states.last() == after
            && first == first_some(outcomes);
    law_first_some_is_first(outcomes);
    assert forall|j: int| 0 <= j < callbacks.len() && outcomes[j] is None implies (
    #[trigger] callbacks[j]).returned() by {
        assert(ran_one(states[j], callbacks[j], states[j + 1], outcomes[j]));
    }
    if first is Some {
        let i = choose|i: int|
            0 <= i < outcomes.len() && #[trigger] outcomes[i] == first && forall|j: int|
                0 <= j < i ==> (#[trigger] outcomes[j]) is None;
        assert(ran_all(states, callbacks, outcomes) && outcomes[i] == first);
    }
}

/// Runs every callback, in order, and returns the failure of the first one that
/// failed. A failure stops nothing: the callbacks behind it are run all the same.
pub fn run_callbacks<R: Runner>(callbacks: Vec<QueuedCallback>, runner: R) -> (r: (
    R,
    Option<R::Failure>,
))
    ensures
        drained(runner, callbacks@, r.0, r.1),
{
    let mut current = runner;
    let mut first: Option<R::Failure> = None;
    let ghost mut outcomes: Seq<Option<R::Failure>> = Seq::empty();
    let ghost mut states: Seq<R> = seq![current];
    for callback in iter: callbacks
        invariant
            iter.seq() == callbacks@,
            ran_all(states, callbacks@.take(iter.index()), outcomes),
            states[0] == runner,
            states.last() == current,
            first == first_some(outcomes),
    {
        let ghost before = current;
        let ghost outcomes_before = outcomes;
        let (next, outcome) = current.run(callback);
        current = next;
        proof {
            assert(ran_one(before, callback, next, outcome));
            outcomes = outcomes.push(outcome);
            states = states.push(next);
            assert(outcomes.drop_last() == outcomes_before);
        }
        if first.is_none() {
            first = outcome;
        }
    }
    proof {
        assert(callbacks@.take(callbacks@.len() as int) == callbacks@);
        assert(ran_all(states, callbacks@, outcomes));
    }
    (current, first)
}

} // verus!

use std::sync::{
    Arc,
    atomic::{AtomicBool, AtomicU64, Ordering::Relaxed},
};

use lock_notify::callback::{enqueue, run_callbacks};
use lock_notify::held::WaitWhile;
use lock_notify::inner::Inner;
use lock_notify::state::Snapshot;
use lock_notify::{QueuedCallback, RwLockNotify, Runner};
use parking_lot::{Mutex, RwLock};

/// Runs callbacks, counts them, and reports those at the given places as failed.
struct Count {
    ran: usize,
    failing: Vec<usize>,
}

impl Count {
    fn new(failing: Vec<usize>) -> Self {
        Count { ran: 0, failing }
    }
}

impl Runner for Count {
    type Failure = usize;

    fn run(mut self, callback: QueuedCallback) -> (Self, Option<usize>) {
        callback.call();
        let place = self.ran;
        self.ran += 1;
        let outcome = if self.failing.contains(&place) { Some(place) } else { None };
        (self, outcome)
    }
}

fn shown<T>(lock: &RwLockNotify<T>) -> Snapshot {
    lock.state().snapshot().unwrap()
}

fn idle() -> Snapshot {
    Snapshot { dropping: false, locking: 0, readers: 0 }
}

fn log_callbacks(names: &Arc<Mutex<Vec<u64>>>, lock: &RwLockNotify<u64>, n: u64) {
    for i in 0..n {
        let names = names.clone();
        assert!(lock.try_write_or(move || names.lock().push(i)).is_none());
    }
}

#[test]
fn first_failure_is_returned_and_every_callback_is_run() {
    let lock = RwLockNotify::new(0u64);
    let names = Arc::new(Mutex::new(Vec::new()));

    let r = lock.read();
    log_callbacks(&names, &lock, 4);
    let (runner, first) = r.release(Count::new(vec![1, 2]));
    assert_eq!(first, Some(1));
    assert_eq!(runner.ran, 4);
    assert_eq!(*names.lock(), vec![0, 1, 2, 3]);

    let w = lock.write();
    log_callbacks(&names, &lock, 2);
    let (runner, first) = w.release(Count::new(vec![0]));
    assert_eq!(first, Some(0));
    assert_eq!(runner.ran, 2);
    assert_eq!(*names.lock(), vec![0, 1, 2, 3, 0, 1]);
}

#[test]
fn released_queue_is_not_run_again() {
    let lock = RwLockNotify::new(0u64);
    let names = Arc::new(Mutex::new(Vec::new()));

    let w = lock.write();
    log_callbacks(&names, &lock, 3);
    assert_eq!(w.release(Count::new(vec![])).0.ran, 3);

    assert_eq!(lock.write().release(Count::new(vec![])).0.ran, 0);
    assert_eq!(lock.read().release(Count::new(vec![])).0.ran, 0);
    assert_eq!(*names.lock(), vec![0, 1, 2]);
}

#[test]
fn run_callbacks_keeps_the_order() {
    let order = Arc::new(Mutex::new(Vec::new()));
    let mut queue = Vec::new();
    for i in 0..3u64 {
        let order = order.clone();
        enqueue(&mut queue, move || order.lock().push(i));
    }
    assert_eq!(queue.len(), 3);
    let (runner, first) = run_callbacks(queue, Count::new(vec![2]));
    assert_eq!(runner.ran, 3);
    assert_eq!(first, Some(2));
    assert_eq!(*order.lock(), vec![0, 1, 2]);

    let (runner, first) = run_callbacks(Vec::new(), Count::new(vec![0]));
    assert_eq!(runner.ran, 0);
    assert_eq!(first, None);
}

#[test]
fn only_the_last_reader_runs_the_queue() {
    let lock = RwLockNotify::new(5u64);
    let names = Arc::new(Mutex::new(Vec::new()));

    let r1 = lock.read();
    let r2 = lock.try_read().unwrap();
    assert_eq!(shown(&lock), Snapshot { readers: 2, ..idle() });
    log_callbacks(&names, &lock, 2);
    assert_eq!(shown(&lock), Snapshot { readers: 2, ..idle() });
    assert_eq!(r1.release(Count::new(vec![])).0.ran, 0);
    assert_eq!(shown(&lock), Snapshot { readers: 1, ..idle() });
    assert_eq!(r2.release(Count::new(vec![])).0.ran, 2);
    assert_eq!(shown(&lock), idle());
}

#[test]
fn write_guard_runs_what_a_dropped_reader_left() {
    // A reader that merely goes out of scope is no longer counted and runs
    // nothing; the next release runs what is in the queue.
    let lock = RwLockNotify::new(0u64);
    let names = Arc::new(Mutex::new(Vec::new()));

    {
        let _r = lock.read();
        log_callbacks(&names, &lock, 2);
        assert_eq!(shown(&lock), Snapshot { readers: 1, ..idle() });
    }
    assert_eq!(shown(&lock), idle());
    assert!(names.lock().is_empty());
    assert_eq!(lock.write().release(Count::new(vec![])).0.ran, 2);
    assert_eq!(*names.lock(), vec![0, 1]);
}

#[test]
fn last_reader_runs_the_queue_though_others_were_dropped() {
    let lock = RwLockNotify::new((1u64, 2u64));
    let called = Arc::new(AtomicBool::new(false));
    let called2 = called.clone();

    let kept = lock.read();
    drop(lock.read());
    drop(lock.read().map(|t| &t.1));
    drop(lock.read().try_map(|_| None::<&u64>).err().unwrap());
    assert_eq!(shown(&lock), Snapshot { readers: 1, ..idle() });
    assert!(lock.try_write_or(move || called2.store(true, Relaxed)).is_none());
    assert_eq!(kept.release(Count::new(vec![])).1, None);
    assert!(called.load(Relaxed));
    assert_eq!(shown(&lock), idle());
}

#[test]
fn dropped_write_guard_leaves_the_lock_free() {
    let lock = RwLockNotify::new(1u64);
    {
        let mut w = lock.write();
        *w = 2;
    }
    assert_eq!(shown(&lock), idle());
    let w = lock.try_write().unwrap();
    assert_eq!(*w, 2);
    assert_eq!(w.release(Count::new(vec![])).1, None);
}

#[test]
fn locked_value_is_refused_and_kept() {
    let lock = RwLockNotify::new(1u64);

    let r = lock.read();
    assert!(lock.try_write().is_none());
    assert!(lock.try_write_or(|| {}).is_none());
    let again = lock.try_read().unwrap();
    assert_eq!((*r, *again), (1, 1));
    assert_eq!(again.release(Count::new(vec![])).1, None);
    assert_eq!(r.release(Count::new(vec![])).1, None);

    let mut w = lock.write();
    *w = 5;
    assert!(lock.try_read().is_none());
    assert!(lock.try_write().is_none());
    assert!(lock.try_write_or(|| {}).is_none());
    assert!(lock.try_write_or_else(|| || {}).is_none());
    assert_eq!(w.release(Count::new(vec![])).1, None);
    assert_eq!(*lock.peek().unwrap().get(), 5);
}

#[test]
fn callbacks_run_with_nothing_locked() {
    let lock = Arc::new(RwLockNotify::new(1u64));
    let seen = Arc::new(Mutex::new(None));
    let (lock2, seen2) = (lock.clone(), seen.clone());

    let w = lock.write();
    assert!(
        lock.try_write_or(move || {
            *seen2.lock() = lock2.state().snapshot();
            let w = lock2.try_write().unwrap();
            assert_eq!(w.release(Count::new(vec![])).1, None);
        })
        .is_none()
    );
    assert_eq!(w.release(Count::new(vec![])).0.ran, 1);
    assert_eq!(*seen.lock(), Some(idle()));
}

#[test]
fn callback_queued_by_a_callback_waits_for_the_next_release() {
    let lock = Arc::new(RwLockNotify::new(1u64));
    let calls = Arc::new(AtomicU64::new(0));
    let (lock2, calls2) = (lock.clone(), calls.clone());

    let w = lock.write();
    assert!(
        lock.try_write_or(move || {
            let calls3 = calls2.clone();
            let r = lock2.read();
            assert!(
                lock2
                    .try_write_or(move || {
                        calls3.fetch_add(1, Relaxed);
                    })
                    .is_none()
            );
            assert_eq!(calls2.load(Relaxed), 0);
            assert_eq!(r.release(Count::new(vec![])).0.ran, 1);
        })
        .is_none()
    );
    assert_eq!(w.release(Count::new(vec![])).0.ran, 1);
    assert_eq!(calls.load(Relaxed), 1);
}

#[test]
fn callback_is_made_only_on_refusal_and_under_the_mutex() {
    let lock = Arc::new(RwLockNotify::new(1u64));
    let made = Arc::new(AtomicBool::new(false));

    let made2 = made.clone();
    let w = lock
        .try_write_or_else(|| {
            made2.store(true, Relaxed);
            || {}
        })
        .unwrap();
    assert!(!made.load(Relaxed));
    assert_eq!(shown(&lock), idle());

    let (made2, lock2) = (made.clone(), lock.clone());
    let refused = lock.try_write_or_else(|| {
        made2.store(true, Relaxed);
        assert!(lock2.state().snapshot().is_none());
        || {}
    });
    assert!(refused.is_none());
    assert!(made.load(Relaxed));
    assert_eq!(w.release(Count::new(vec![])).0.ran, 1);
}

#[test]
fn won_attempt_drops_its_callback() {
    let lock = RwLockNotify::new(1u64);
    let called = Arc::new(AtomicBool::new(false));

    let called2 = called.clone();
    let w = lock.try_write_or(move || called2.store(true, Relaxed)).unwrap();
    assert_eq!(Arc::strong_count(&called), 1);
    assert_eq!(shown(&lock), idle());
    assert_eq!(w.release(Count::new(vec![])).0.ran, 0);
    assert!(!called.load(Relaxed));
}

#[test]
fn attempts_with_a_callback_and_with_its_maker_agree() {
    for with_maker in [false, true] {
        let lock = RwLockNotify::new(1u64);
        let names = Arc::new(Mutex::new(Vec::new()));
        let attempt = |name: u64| {
            let names = names.clone();
            let callback = move || names.lock().push(name);
            if with_maker {
                lock.try_write_or_else(|| callback)
            } else {
                lock.try_write_or(callback)
            }
        };

        let w = attempt(0).unwrap();
        assert_eq!(*w, 1);
        assert_eq!(shown(&lock), idle());
        assert!(attempt(1).is_none());
        assert!(attempt(2).is_none());
        assert_eq!(shown(&lock), idle());
        assert_eq!(w.release(Count::new(vec![])).0.ran, 2);
        assert_eq!(*names.lock(), vec![1, 2]);
        assert_eq!(shown(&lock), idle());
    }
}

#[test]
fn every_write_guard_runs_what_it_turned_away() {
    let lock = Arc::new(RwLockNotify::new(0u64));
    let names = Arc::new(Mutex::new(Vec::new()));
    let (lock2, names2) = (lock.clone(), names.clone());

    // The callback of the first guard takes the second one and turns an attempt
    // away, while the first guard is still being released.
    let w = lock.write();
    assert!(
        lock.try_write_or(move || {
            let w = lock2.write();
            log_callbacks(&names2, &lock2, 3);
            assert_eq!(w.release(Count::new(vec![])).0.ran, 3);
            assert_eq!(*names2.lock(), vec![0, 1, 2]);
        })
        .is_none()
    );
    assert_eq!(w.release(Count::new(vec![])).0.ran, 1);
    assert_eq!(*names.lock(), vec![0, 1, 2]);
    assert_eq!(lock.write().release(Count::new(vec![])).0.ran, 0);
    assert_eq!(shown(&lock), idle());
}

#[test]
fn peek_is_not_counted_and_runs_nothing() {
    let lock = RwLockNotify::new(1u64);
    let names = Arc::new(Mutex::new(Vec::new()));

    {
        let seen = lock.peek().unwrap();
        assert_eq!(*seen.get(), 1);
        assert_eq!(shown(&lock), idle());
        log_callbacks(&names, &lock, 1);
    }
    assert!(names.lock().is_empty());
    assert_eq!(lock.read().release(Count::new(vec![])).0.ran, 1);
    assert_eq!(*names.lock(), vec![0]);
}

#[test]
fn refused_without_a_callback_queues_nothing() {
    let lock = RwLockNotify::new(1u64);

    let w = lock.write();
    assert!(lock.try_read().is_none());
    assert!(lock.try_write().is_none());
    assert!(lock.peek().is_none());
    assert_eq!(w.release(Count::new(vec![])).0.ran, 0);

    let r = lock.read();
    assert!(lock.try_write().is_none());
    assert_eq!(*lock.peek().unwrap().get(), 1);
    assert_eq!(r.release(Count::new(vec![])).0.ran, 0);
    assert_eq!(shown(&lock), idle());
}

#[test]
fn value_goes_in_and_out() {
    let lock = RwLockNotify::new(3u64);
    let mut w = lock.write();
    assert_eq!(*w, 3);
    *w = 4;
    assert_eq!(*w, 4);
    assert_eq!(w.release(Count::new(vec![])).1, None);
    assert_eq!(lock.into_inner(), 4);

    let lock: RwLockNotify<u64> = RwLockNotify::from(7u64);
    assert_eq!(shown(&lock), idle());
    assert_eq!(lock.into_inner(), 7);

    let lock: RwLockNotify<u64> = RwLockNotify::from(RwLock::new(8u64));
    let back: RwLock<u64> = lock.into();
    assert_eq!(back.into_inner(), 8);
    assert_eq!(RwLockNotify::from_lock(RwLock::new(9u64)).into_inner(), 9);
}

#[test]
fn taking_the_lock_apart_drops_the_queue() {
    let lock = RwLockNotify::new(3u64);
    let called = Arc::new(AtomicBool::new(false));
    let called2 = called.clone();
    {
        let _w = lock.write();
        assert!(lock.try_write_or(move || called2.store(true, Relaxed)).is_none());
    }
    assert_eq!(lock.into_inner(), 3);
    assert!(!called.load(Relaxed));
    assert_eq!(Arc::strong_count(&called), 1);
}

#[test]
fn mapped_guards_share_the_state() {
    let lock = RwLockNotify::new((1u64, 2u64));

    let m = lock.read().map(|t| &t.1);
    assert_eq!(*m, 2);
    assert_eq!(m.state().snapshot(), Some(Snapshot { readers: 1, ..idle() }));
    assert_eq!(m.release(Count::new(vec![])).0.ran, 0);
    assert_eq!(shown(&lock), idle());

    let w = lock.write();
    assert_eq!(w.state().snapshot(), Some(idle()));
    let mut m = w.map(|t| &mut t.0);
    *m = 6;
    assert_eq!(*m, 6);
    assert!(lock.try_write_or(|| {}).is_none());
    assert_eq!(m.state().snapshot(), Some(idle()));
    assert_eq!(m.release(Count::new(vec![])).0.ran, 1);
    assert_eq!(lock.into_inner(), (6, 2));
}

#[test]
fn refused_map_of_a_write_guard_keeps_what_was_written() {
    let lock = RwLockNotify::new((1u64, 2u64));
    let back = lock.write().try_map_err(|t| {
        t.0 = 5;
        Err::<&mut u64, u8>(7)
    });
    let (w, error) = back.err().unwrap();
    assert_eq!(error, 7);
    assert_eq!(*w, (5, 2));
    let back = w.try_map(|t| {
        t.1 = 6;
        None::<&mut u64>
    });
    let w = back.err().unwrap();
    assert_eq!(*w, (5, 6));
    assert_eq!(w.release(Count::new(vec![])).1, None);
}

#[test]
fn bookkeeping_step_by_step() {
    let mut inner = Inner::default();
    assert!(!inner.dropping);
    assert_eq!((inner.locking, inner.readers, inner.callbacks.len()), (0, 0, 0));

    inner.begin_attempt();
    inner.begin_attempt();
    assert_eq!(inner.locking, 2);
    assert!(WaitWhile::Locking.check(&inner));
    assert!(!inner.win_attempt());
    assert_eq!(inner.locking, 1);
    assert!(inner.lose_attempt(|| {}));
    assert_eq!((inner.locking, inner.callbacks.len()), (0, 1));
    assert!(!WaitWhile::Locking.check(&inner));

    inner.enter_reader();
    inner.enter_reader();
    assert_eq!(inner.readers, 2);
    assert!(!inner.leave_reader());
    assert!(!inner.dropping);
    assert!(inner.leave_reader());
    assert!(inner.dropping);
    assert!(WaitWhile::Dropping.check(&inner));
    assert_eq!(inner.readers, 0);

    // Another reader leaves the queue alone while it is being collected.
    inner.enter_reader();
    assert!(!inner.leave_reader());

    assert_eq!(inner.take_callbacks().len(), 1);
    assert_eq!(inner.callbacks.len(), 0);
    inner.reopen();
    assert!(!inner.dropping);
    assert!(!WaitWhile::Dropping.check(&inner));

    // Nothing to collect.
    inner.enter_reader();
    assert!(!inner.leave_reader());
    inner.enter_reader();
    inner.forget_reader();
    assert_eq!(inner.readers, 0);
    inner.close();
    assert!(inner.dropping);
}

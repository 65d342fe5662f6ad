use std::sync::{
    Arc,
    atomic::{AtomicBool, Ordering::Relaxed},
};

use lock_notify::{QueuedCallback, RwLockNotify, Runner};
use parking_lot::{Mutex, RwLock};

/// Runs a callback and reports no failure.
struct Fire;

impl Runner for Fire {
    type Failure = ();

    fn run(self, callback: QueuedCallback) -> (Self, Option<()>) {
        callback.call();
        (self, None)
    }
}

#[test]
fn test_callback() {
    let lock = RwLock::new(12u64);
    let lock_notify = RwLockNotify::from_lock(lock);
    let callback_allowed = Arc::new(AtomicBool::new(false));
    let callback_allowed_2 = callback_allowed.clone();
    let called = Arc::new(AtomicBool::new(false));
    let called_2 = called.clone();

    let guard = lock_notify.try_write_or(|| {}).unwrap();
    assert_eq!(*guard, 12);
    let r = lock_notify.try_write_or(move || {
        assert!(callback_allowed_2.load(Relaxed));
        called_2.store(true, Relaxed);
    });
    assert!(r.is_none());
    callback_allowed.store(true, Relaxed);

    assert!(guard.release(Fire).1.is_none());

    callback_allowed.store(false, Relaxed);
    assert!(called.load(Relaxed));
}

#[test]
fn test_multiple_callbacks() {
    let lock = Arc::new(RwLockNotify::from_lock(RwLock::new(0u64)));
    let order = Arc::new(Mutex::new(Vec::new()));

    let guard = lock.try_write_or(|| {}).unwrap();

    for i in 0..5u64 {
        let order = order.clone();
        assert!(lock.try_write_or(move || order.lock().push(i)).is_none());
    }

    assert!(guard.release(Fire).1.is_none());
    assert_eq!(*order.lock(), vec![0, 1, 2, 3, 4]);
}

#[test]
fn test_callback_can_call_try_write() {
    // Callbacks are run with nothing locked, so a callback can use the lock.
    let lock = Arc::new(RwLockNotify::from_lock(RwLock::new(0u64)));
    let lock2 = lock.clone();

    let guard = lock.try_write_or(|| {}).unwrap();
    assert!(
        lock.try_write_or(move || {
            let again = lock2.try_write_or(|| {}).unwrap();
            assert!(again.release(Fire).1.is_none());
        })
        .is_none()
    );
    assert!(guard.release(Fire).1.is_none());
}

#[test]
fn test_read() {
    let lock = RwLockNotify::new(42u64);
    let r = lock.read();
    assert_eq!(*r, 42);
    assert!(r.release(Fire).1.is_none());
}

#[test]
fn test_concurrent_reads() {
    // Two read guards can be held simultaneously.
    let lock = Arc::new(RwLockNotify::new(42u64));
    let r1 = lock.read();
    let r2 = lock.read();
    assert_eq!(*r1, 42);
    assert_eq!(*r2, 42);
    assert!(r1.release(Fire).1.is_none());
    assert!(r2.release(Fire).1.is_none());
}

#[test]
fn test_write_triggers_callbacks() {
    // A guard from write() runs registered callbacks just like one from
    // try_write_or().
    let lock = Arc::new(RwLockNotify::from_lock(RwLock::new(0u64)));

    let called = Arc::new(AtomicBool::new(false));
    let called2 = called.clone();

    let guard = lock.write();
    assert!(lock.try_write_or(move || called2.store(true, Relaxed)).is_none());
    assert!(guard.release(Fire).1.is_none());

    assert!(called.load(Relaxed));
}

use std::sync::{
    Arc,
    atomic::{AtomicBool, Ordering::Relaxed},
};

use lock_notify::{QueuedCallback, RwLockNotify, Runner};


/// Runs a callback and reports no failure.
struct Fire;

impl Runner for Fire {
    type Failure = ();

    fn run(self, callback: QueuedCallback) -> (Self, Option<()>) {
        callback.call();
        (self, None)
    }
}

#[test]
fn test_map_read_guard() {
    let lock = RwLockNotify::new((1u64, 2u64));
    let mapped = lock.read().map(|t| &t.0);
    assert_eq!(*mapped, 1);
    assert!(mapped.release(Fire).1.is_none());
}

#[test]
fn test_map_read_guard_fires_callbacks() {
    let lock = Arc::new(RwLockNotify::new((1u64, 2u64)));
    let called = Arc::new(AtomicBool::new(false));
    let called2 = called.clone();

    let mapped = lock.read().map(|t| &t.1);
    assert!(
        lock.try_write_or(move || called2.store(true, Relaxed))
            .is_none()
    );

    assert!(!called.load(Relaxed));
    assert!(mapped.release(Fire).1.is_none());
    assert!(called.load(Relaxed));
}

#[test]
fn test_try_map_read_guard_success() {
    let lock = RwLockNotify::new((1u64, 2u64));
    let mapped = lock.read().try_map(|t| Some(&t.0));
    assert!(mapped.is_ok());
    let mapped = mapped.ok().unwrap();
    assert_eq!(*mapped, 1);
    assert!(mapped.release(Fire).1.is_none());
}

#[test]
fn test_try_map_read_guard_failure() {
    let lock = RwLockNotify::new((1u64, 2u64));
    let r = lock.read();
    let result = r.try_map(|_| None::<&u64>);
    assert!(result.is_err());
    // The original guard is returned.
    let original = result.err().unwrap();
    assert_eq!(*original, (1, 2));
    assert!(original.release(Fire).1.is_none());
}

#[test]
fn test_try_map_read_guard_failure_still_fires_callbacks() {
    let lock = Arc::new(RwLockNotify::new((1u64, 2u64)));
    let called = Arc::new(AtomicBool::new(false));
    let called2 = called.clone();

    let r = lock.read();
    assert!(
        lock.try_write_or(move || called2.store(true, Relaxed))
            .is_none()
    );

    let result = r.try_map(|_| None::<&u64>);
    let original = result.err().unwrap();
    assert!(!called.load(Relaxed), "callback must not fire yet");
    assert!(original.release(Fire).1.is_none());
    assert!(called.load(Relaxed), "callback must fire after drop");
}

#[test]
fn test_try_map_or_err_read_guard_success() {
    let lock = RwLockNotify::new((1u64, 2u64));
    let mapped = lock.read().try_map_or_err(|t| Ok::<_, ()>(&t.1));
    assert!(mapped.is_ok());
    let mapped = mapped.ok().unwrap();
    assert_eq!(*mapped, 2);
    assert!(mapped.release(Fire).1.is_none());
}

#[test]
fn test_try_map_or_err_read_guard_failure() {
    let lock = RwLockNotify::new((1u64, 2u64));
    let r = lock.read();
    let result = r.try_map_or_err(|_| Err::<&u64, _>("oops"));
    assert!(result.is_err());
    let (original, err) = result.err().unwrap();
    assert_eq!(err, "oops");
    assert_eq!(*original, (1, 2));
    assert!(original.release(Fire).1.is_none());
}


#[test]
fn test_map_write_guard() {
    let lock = RwLockNotify::new((1u64, 2u64));
    let mut mapped = lock.write().map(|t| &mut t.0);
    *mapped = 99;
    assert!(mapped.release(Fire).1.is_none());
    let r = lock.read();
    assert_eq!(r.0, 99);
    assert!(r.release(Fire).1.is_none());
}

#[test]
fn test_map_write_guard_fires_callbacks() {
    let lock = Arc::new(RwLockNotify::new((1u64, 2u64)));
    let called = Arc::new(AtomicBool::new(false));
    let called2 = called.clone();

    let mapped = lock.write().map(|t| &mut t.1);
    assert!(
        lock.try_write_or(move || called2.store(true, Relaxed))
            .is_none()
    );

    assert!(!called.load(Relaxed));
    assert!(mapped.release(Fire).1.is_none());
    assert!(called.load(Relaxed));
}

#[test]
fn test_try_map_write_guard_success() {
    let lock = RwLockNotify::new((1u64, 2u64));
    let mapped = lock.write().try_map(|t| Some(&mut t.0));
    assert!(mapped.is_ok());
    let mut m = mapped.ok().unwrap();
    *m = 42;
    assert!(m.release(Fire).1.is_none());
    let r = lock.read();
    assert_eq!(r.0, 42);
    assert!(r.release(Fire).1.is_none());
}

#[test]
fn test_try_map_write_guard_failure() {
    let lock = RwLockNotify::new((1u64, 2u64));
    let w = lock.write();
    let result = w.try_map(|_| None::<&mut u64>);
    assert!(result.is_err());
    let original = result.err().unwrap();
    assert_eq!(*original, (1, 2));
    assert!(original.release(Fire).1.is_none());
}

#[test]
fn test_try_map_write_guard_failure_still_fires_callbacks() {
    let lock = Arc::new(RwLockNotify::new((1u64, 2u64)));
    let called = Arc::new(AtomicBool::new(false));
    let called2 = called.clone();

    let w = lock.write();
    assert!(
        lock.try_write_or(move || called2.store(true, Relaxed))
            .is_none()
    );

    let result = w.try_map(|_| None::<&mut u64>);
    let original = result.err().unwrap();
    assert!(!called.load(Relaxed));
    assert!(original.release(Fire).1.is_none());
    assert!(called.load(Relaxed));
}

#[test]
fn test_try_map_err_write_guard_success() {
    let lock = RwLockNotify::new((1u64, 2u64));
    let mapped = lock.write().try_map_err(|t| Ok::<_, ()>(&mut t.1));
    assert!(mapped.is_ok());
    let mut m = mapped.ok().unwrap();
    assert_eq!(*m, 2);
    *m = 77;
    assert!(m.release(Fire).1.is_none());
    let r = lock.read();
    assert_eq!(r.1, 77);
    assert!(r.release(Fire).1.is_none());
}

#[test]
fn test_try_map_err_write_guard_failure() {
    let lock = RwLockNotify::new((1u64, 2u64));
    let w = lock.write();
    let result = w.try_map_err(|_| Err::<&mut u64, _>("oops"));
    assert!(result.is_err());
    let (original, err) = result.err().unwrap();
    assert_eq!(err, "oops");
    assert_eq!(*original, (1, 2));
    assert!(original.release(Fire).1.is_none());
}

# lock-notify

An `RwLock` around a value that runs callbacks when a guard is released.

`RwLock::try_write` returns `None` when the lock is held, and gives no way to know
when it becomes free. `RwLockNotify::try_write_or` queues a callback in that case.
When the write guard is released, or the last read guard, every queued callback is
run in the order in which it was queued, with nothing locked. A callback that fails
does not keep the others from being run. Every attempt that a write guard turned away
has its callback out of the queue by the time the guard is released.

## Layout

- `src/` is the library, verified with Verus. `held.rs` is all that is taken on trust
  of `parking_lot`. `alone.rs` proves what the calls of one thread alone come to.
  `protocol.rs` models a lock with all its users and proves what holds of that model.
  That the calls of several threads interleave as the model says is assumed: the
  contracts speak of one call at a time.
- `app/` wraps the guards so that they release themselves when they are dropped, and
  catches and resumes the panics of callbacks.
- `tests/` runs the library.

## Releasing a guard

```rust
let lock = RwLockNotify::new(0u32);
let guard = lock.write();
assert!(lock.try_write_or(|| println!("lock is free now")).is_none());
let (runner, first_failure) = guard.release(runner);
```

A `Runner` carries the callbacks out; it decides what a failure is and what is left
of it.

A guard of the library that is dropped and not released unlocks the value and is no
longer counted, but runs no callback: a callback may panic, and a drop must not. The
guards of `app/` release themselves.

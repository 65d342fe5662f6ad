//! A reader-writer lock that runs callbacks when its guards are released.
//!
//! `RwLock::try_write` of `parking_lot` returns `None` when the lock is held and
//! leaves the caller no way to know when it becomes free. Here a caller that is
//! refused leaves a callback behind: [`RwLockNotify::try_write_or`]. The callbacks
//! are run in the order in which they were queued, with nothing locked, when the
//! next write guard or the last read guard is released.
//!
//! - [`lock`] holds the lock, [`guard`] its guards.
//! - [`inner`] is the bookkeeping of a lock and the steps taken on it, [`state`]
//!   the mutex around it.
//! - [`section`] holds what can be done while that mutex is locked. [`place`] sees to it
//!   that what is counted up is counted down once.
//! - [`effect`] is for headers to say what a call may do at all.
//! - [`callback`] holds the callbacks and the loop that runs them.
//! - [`trace`] records what a call does, for contracts to speak of.
//! - [`alone`] proves what the calls of one thread alone come to.
//! - [`protocol`] models a lock and all its users at once, and proves what holds of
//!   that model.
//! - [`held`] is all that is taken on trust of `parking_lot`.
pub mod alone;
pub mod callback;
pub mod effect;
pub mod guard;
pub mod held;
pub mod inner;
pub mod lock;
pub mod place;
pub mod protocol;
pub mod section;
pub mod state;
pub mod trace;

pub use crate::callback::{QueuedCallback, Runner};
pub use crate::guard::{
    MappedRwLockNotifyReadGuard, MappedRwLockNotifyWriteGuard, RwLockNotifyReadGuard,
    RwLockNotifyWriteGuard,
};
pub use crate::lock::RwLockNotify;

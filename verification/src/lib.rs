//! A reader-writer lock that rings back when contention clears.
//!
//! A write attempt that loses its race leaves a callback behind. The callbacks
//! that were left are collected, in the order in which they came, by the next
//! exclusive release or by the release of the last reader, and run once the
//! lock is free.
//!
//! - [`bell`] is the mathematical model of the bookkeeping: three counters, a
//!   queue, and one function per critical section.
//! - [`inner`] is the bookkeeping itself, proved to follow the model, and
//!   [`state`] is what happens around it: waiting, releasing, running callbacks.
//!   [`queue`] states what any sequence of critical sections does to the queue
//!   and the counts, and [`pairing`] how acquiring and releasing belong together.
//! - [`raw`] adds the bell to any lock, and [`rwlock`] to the one of
//!   `parking_lot`, with its guards; [`text`] is what is printed.
//! - [`protocol`] is the model of any number of threads that use one lock at
//!   the same time. [`laws`] and [`progress`] state what holds of every one of
//!   its runs, and [`soundness`] is why.
//! - [`sync`] and [`rwlock::hold`] are the trusted calls into `parking_lot`.
use vstd::prelude::*;

pub mod bell;
pub mod callback;
pub mod inner;
pub mod laws;
#[allow(dead_code)]
pub mod pairing;
pub mod progress;
pub mod protocol;
pub mod queue;
pub mod raw;
pub mod rwlock;
pub mod soundness;
pub mod state;
pub mod sync;
pub mod text;

pub use callback::{Callback, Notify};
pub use inner::{LockStateInner, Operation};
pub use raw::RawRwLockBell;
pub use rwlock::guard::{
    ArcRwLockBellReadGuard, ArcRwLockBellWriteGuard, MappedRwLockBellReadGuard,
    MappedRwLockBellWriteGuard, RwLockBellReadGuard, RwLockBellWriteGuard, Unlocked,
};
pub use rwlock::{Peek, RwLockBell};
pub use state::{catch_panic, drain_and_run, LockState, PanicGuard};

verus! {

} // verus!

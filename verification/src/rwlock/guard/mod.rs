//! The guards of an [`RwLockBell`](crate::rwlock::RwLockBell).
//!
//! |           | borrowed                 | mapped                         | via `Arc`                   |
//! |-----------|--------------------------|--------------------------------|-----------------------------|
//! | shared    | [`RwLockBellReadGuard`]  | [`MappedRwLockBellReadGuard`]  | [`ArcRwLockBellReadGuard`]  |
//! | exclusive | [`RwLockBellWriteGuard`] | [`MappedRwLockBellWriteGuard`] | [`ArcRwLockBellWriteGuard`] |
//!
//! A guard is given back by its `unlock` function, which releases the lock and
//! rings the bell. Running callbacks can unwind, and a destructor that does so is
//! outside of what is proved here: a guard that is merely dropped releases the
//! lock, but its operation stays in the bell's counts for good.
use vstd::prelude::*;

use crate::callback::Callback;
use crate::inner::Operation;
use crate::state::drained;

mod arc;
mod read;
mod write;

pub use arc::{ArcRwLockBellReadGuard, ArcRwLockBellWriteGuard, Exit};
pub use read::{MappedRwLockBellReadGuard, RwLockBellReadGuard};
pub use write::{MappedRwLockBellWriteGuard, RwLockBellWriteGuard};

verus! {

/// What giving a guard back comes to.
pub struct Unlocked<S, P> {
    /// The operation of the guard, which is over. It has taken the callbacks that
    /// were rung.
    pub op: Operation,
    /// What the last call of the ring function left.
    pub ringer: S,
    /// The first panic that came out of a callback, to be raised.
    pub panic: Option<P>,
}

impl<S, P> Unlocked<S, P> {
    /// The operation is over, and `ring` was given the callbacks that it took, one
    /// after the other, beginning with `ringer`.
    pub open spec fn rang<F: Fn(S, Callback) -> (S, Option<P>)>(
        &self,
        ring: F,
        ringer: S,
        unwinding: bool,
    ) -> bool {
        &&& self.op@.phase is Over
        &&& self.op@.left is None
        &&& drained(ring, self.op@.batch, ringer, unwinding, (self.ringer, self.panic))
    }
}

} // verus!

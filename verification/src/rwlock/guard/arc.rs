//! Guards that own the lock that they guard, with no lifetime attached.
use std::ops::{Deref, DerefMut};
use std::sync::Arc;

use vstd::prelude::*;

use super::Unlocked;
use crate::callback::Callback;
use crate::inner::{Operation, Phase, Progress};
use crate::rwlock::RwLockBell;
use crate::state::{accepts_callable, LockState};

verus! {

/// What it takes to end an operation on a lock that its guard owns. Only this file makes
/// one.
pub struct Exit {
    unit: (),
}

impl Exit {
    fn new() -> (exit: Self)
        opens_invariants none
        no_unwind
    {
        Exit { unit: () }
    }
}

/// A shared guard that was obtained through an [`Arc`].
///
/// It holds the [`Arc`] rather than a reference into it, so it keeps the lock alive
/// by itself. `G` is what holds the lock under the bell, and releases it when it is
/// dropped.
#[must_use]
#[verifier::reject_recursive_types(T)]
#[verifier::reject_recursive_types(G)]
pub struct ArcRwLockBellReadGuard<T: ?Sized, G> {
    op: Operation,
    held: G,
    lock: Arc<RwLockBell<T>>,
}

impl<T: ?Sized, G> ArcRwLockBellReadGuard<T, G> {
    /// The operation of the guard holds the lock.
    #[verifier::type_invariant]
    spec fn well_formed(self) -> bool {
        self.op@ == Progress::at(Phase::HoldsShared)
    }

    /// The lock that is guarded.
    pub closed spec fn lock(&self) -> Arc<RwLockBell<T>> {
        self.lock
    }

    /// The bell that giving the guard back rings.
    pub open spec fn bell(&self) -> &LockState {
        self.lock().bell()
    }

    /// What holds the lock.
    pub closed spec fn held(&self) -> G {
        self.held
    }

    /// Makes a guard of an operation that holds the lock.
    pub(crate) fn new(op: Operation, held: G, lock: Arc<RwLockBell<T>>) -> (guard: Self)
        requires
            op@ == Progress::at(Phase::HoldsShared),
        ensures
            guard.lock() == lock,
            guard.held() == held,
    {
        ArcRwLockBellReadGuard { op, held, lock }
    }

    /// Gives the guard back: releases the lock and rings the bell, and only then
    /// lets go of the [`Arc`].
    pub fn unlock<S, P>(
        s: Self,
        ringer: S,
        ring: impl Fn(S, Callback) -> (S, Option<P>),
        unwinding: bool,
    ) -> (unlocked: Unlocked<S, P>)
        requires
            accepts_callable(ring),
        ensures
            unlocked.rang(ring, ringer, unwinding),
            s.bell().shared_released(s.held(), unlocked.op@.batch),
    {
        proof {
            use_type_invariant(&s);
        }
        let ArcRwLockBellReadGuard { mut op, held, lock } = s;
        let (ringer, panic) = lock.raw().state().end_shared(
            &mut op,
            held,
            ringer,
            ring,
            unwinding,
            Exit::new(),
        );
        Unlocked { op, ringer, panic }
    }
}

impl<T: ?Sized, G: Deref<Target = T>> Deref for ArcRwLockBellReadGuard<T, G> {
    type Target = T;

    fn deref(&self) -> (value: &T)
        ensures
            G::deref.ensures((&self.held(),), value),
    {
        self.held.deref()
    }
}

/// An operation that holds the lock exclusively.
struct Writer {
    op: Operation,
}

impl Writer {
    #[verifier::type_invariant]
    spec fn well_formed(self) -> bool {
        self.op@ == Progress::at(Phase::HoldsExclusive)
    }
}

/// An exclusive guard that was obtained through an [`Arc`].
///
/// It holds the [`Arc`] rather than a reference into it, so it keeps the lock alive
/// by itself. `G` is what holds the lock under the bell, and releases it when it is
/// dropped.
#[must_use]
#[verifier::reject_recursive_types(T)]
#[verifier::reject_recursive_types(G)]
pub struct ArcRwLockBellWriteGuard<T: ?Sized, G> {
    op: Writer,
    held: G,
    lock: Arc<RwLockBell<T>>,
}

impl<T: ?Sized, G> ArcRwLockBellWriteGuard<T, G> {
    /// The lock that is guarded.
    pub closed spec fn lock(&self) -> Arc<RwLockBell<T>> {
        self.lock
    }

    /// The bell that giving the guard back rings.
    pub open spec fn bell(&self) -> &LockState {
        self.lock().bell()
    }

    /// What holds the lock.
    pub closed spec fn held(&self) -> G {
        self.held
    }

    /// Makes a guard of an operation that holds the lock.
    pub(crate) fn new(op: Operation, held: G, lock: Arc<RwLockBell<T>>) -> (guard: Self)
        requires
            op@ == Progress::at(Phase::HoldsExclusive),
        ensures
            guard.lock() == lock,
            guard.held() == held,
    {
        ArcRwLockBellWriteGuard { op: Writer { op }, held, lock }
    }

    /// Gives the guard back: releases the lock and rings the bell, and only then
    /// lets go of the [`Arc`].
    pub fn unlock<S, P>(
        s: Self,
        ringer: S,
        ring: impl Fn(S, Callback) -> (S, Option<P>),
        unwinding: bool,
    ) -> (unlocked: Unlocked<S, P>)
        requires
            accepts_callable(ring),
        ensures
            unlocked.rang(ring, ringer, unwinding),
            s.bell().exclusive_released(s.held(), unlocked.op@.batch),
    {
        let ArcRwLockBellWriteGuard { op: writer, held, lock } = s;
        proof {
            use_type_invariant(&writer);
        }
        let mut op = writer.op;
        let (ringer, panic) = lock.raw().state().end_exclusive(
            &mut op,
            held,
            ringer,
            ring,
            unwinding,
            Exit::new(),
        );
        Unlocked { op, ringer, panic }
    }
}

impl<T: ?Sized, G: Deref<Target = T>> Deref for ArcRwLockBellWriteGuard<T, G> {
    type Target = T;

    fn deref(&self) -> (value: &T)
        ensures
            G::deref.ensures((&self.held(),), value),
    {
        self.held.deref()
    }
}

impl<T: ?Sized, G: DerefMut<Target = T>> DerefMut for ArcRwLockBellWriteGuard<T, G> {
    fn deref_mut(&mut self) -> (value: &mut T)
        ensures
            final(self).lock() == old(self).lock(),
            exists|held: &mut G|
                {
                    &&& *held == old(self).held()
                    &&& *final(held) == final(self).held()
                    &&& #[trigger] G::deref_mut.ensures((held,), value)
                },
    {
        self.held.deref_mut()
    }
}

} // verus!

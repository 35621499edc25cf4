//! The mutex and the condition variables of `parking_lot` that guard the
//! bookkeeping.
//!
//! Beside them stands the call that lets go of what is held.
//!
//! Everything in this file is trusted: the types are opaque, and each function
//! is one call whose contract is taken from the documentation and the source of
//! the function that it calls. What a mutex protects can change behind a shared
//! reference, so no contract speaks of its contents except while they are held. No call
//! opens an invariant: `parking_lot` knows of none, and no destructor may.
use parking_lot::lock_api::Mutex;
use parking_lot::{Condvar, RawMutex};
use vstd::prelude::*;

use crate::inner::LockStateInner;
use crate::state::{Key, LockState};

verus! {

/// `lock_api::Mutex`, opaque.
#[verifier::external_type_specification]
#[verifier::external_body]
#[verifier::reject_recursive_types(R)]
#[verifier::reject_recursive_types(T)]
pub struct ExMutex<R, T: ?Sized>(Mutex<R, T>);

/// `parking_lot::RawMutex`, opaque.
#[verifier::external_type_specification]
#[verifier::external_body]
pub struct ExRawMutex(RawMutex);

/// `parking_lot::Condvar`, opaque.
#[verifier::external_type_specification]
#[verifier::external_body]
pub struct ExCondvar(Condvar);

/// A `parking_lot::MutexGuard` on the bookkeeping, with the [`LockState`] that
/// it was taken from. The mutex is released when it is dropped.
#[verifier::external_body]
pub struct StateGuard<'a> {
    guard: parking_lot::MutexGuard<'a, LockStateInner>,
    state: &'a LockState,
}

/// Calls `lock_api::Mutex::new`. The mutex starts out holding `inner`; since
/// that can change behind a shared reference, nothing is claimed of the result.
#[verifier::external_body]
pub(crate) fn new_mutex(inner: LockStateInner) -> Mutex<RawMutex, LockStateInner>
    opens_invariants none
{
    Mutex::new(inner)
}

/// Calls `parking_lot::Condvar::new`. Nothing is claimed of the result.
#[verifier::external_body]
pub(crate) fn new_condvar() -> Condvar
    opens_invariants none
{
    Condvar::new()
}

/// Calls `lock_api::Mutex::lock` on the mutex of `state`, which blocks until the
/// mutex is free. The key is what entitles to it, and is not used otherwise. It is claimed not to unwind; nothing is claimed of what the
/// mutex holds, which is whatever the last holder left.
#[verifier::external_body]
pub(crate) fn lock_state<'a>(state: &'a LockState, key: Key) -> StateGuard<'a>
    opens_invariants none
    no_unwind
{
    StateGuard { guard: state.inner.lock(), state }
}

/// Calls `lock_api::Mutex::try_lock` on the mutex of `state`, which the key entitles to.
/// Whether it is free is up to the other threads, so nothing is claimed of the result.
#[verifier::external_body]
pub(crate) fn try_lock_state<'a>(state: &'a LockState, key: Key) -> Option<StateGuard<'a>>
    opens_invariants none
{
    match state.inner.try_lock() {
        Some(guard) => Some(StateGuard { guard, state }),
        None => None,
    }
}

/// Calls `DerefMut::deref_mut` of `lock_api::MutexGuard`. It is claimed not to
/// unwind, and the guard stays what it is; of the bookkeeping that it refers to,
/// only what its type guarantees is known.
#[verifier::external_body]
pub(crate) fn guarded<'g, 'a>(guard: &'g mut StateGuard<'a>) -> (inner: &'g mut LockStateInner)
    ensures
        *final(guard) == *old(guard),
    opens_invariants none
    no_unwind
{
    &mut *guard.guard
}

/// Calls `parking_lot::Condvar::wait_while` on `locking_zero`, with the mutex
/// released while it waits. `wait_while` returns once its condition is false and
/// the mutex is held again, so no write attempt is unresolved in the bookkeeping
/// that is returned. The guard stays what it is.
#[verifier::external_body]
pub(crate) fn wait_locking_zero<'g, 'a>(guard: &'g mut StateGuard<'a>) -> (inner:
    &'g mut LockStateInner)
    ensures
        !inner@.has_unresolved(),
        *final(guard) == *old(guard),
    opens_invariants none
{
    guard.state.locking_zero.wait_while(&mut guard.guard, |inner| inner.has_unresolved());
    &mut *guard.guard
}

/// Calls `parking_lot::Condvar::wait_while` on `not_draining`, with the mutex
/// released while it waits. `wait_while` returns once its condition is false and
/// the mutex is held again, so the door is open in the bookkeeping that is
/// returned. The guard stays what it is.
#[verifier::external_body]
pub(crate) fn wait_not_draining<'g, 'a>(guard: &'g mut StateGuard<'a>) -> (inner:
    &'g mut LockStateInner)
    ensures
        !inner@.door_closed(),
        *final(guard) == *old(guard),
    opens_invariants none
{
    guard.state.not_draining.wait_while(&mut guard.guard, |inner| inner.door_closed());
    &mut *guard.guard
}

/// Runs `Drop::drop` of `lock_api::MutexGuard`, which unlocks the mutex. It is claimed
/// not to unwind; what the mutex holds then is up to the other threads.
#[verifier::external_body]
pub(crate) fn unlock_state(guard: StateGuard<'_>)
    opens_invariants none
    no_unwind
{
    std::mem::drop(guard.guard);
}

/// Calls `std::mem::drop`, which runs the destructor of `value`. What that does is up
/// to `G`, so nothing else is claimed: a lock is released by the destructor of its guard.
#[verifier::external_body]
pub(crate) fn let_go<G>(value: G)
    opens_invariants none
{
    std::mem::drop(value);
}

/// Calls `parking_lot::Condvar::notify_all`, which wakes every waiter and is
/// claimed not to unwind. How many there were is up to the other threads.
#[verifier::external_body]
pub(crate) fn notify_all(condvar: &Condvar)
    opens_invariants none
    no_unwind
{
    condvar.notify_all();
}

} // verus!

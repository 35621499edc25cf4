//! What holds between the functions of the lock and of its guards.
//!
//! Each law is stated over the clauses that those functions ensure.
use parking_lot::lock_api::RwLock;
use parking_lot::RawRwLock;
use vstd::prelude::*;

use super::guard::{
    MappedRwLockBellReadGuard, MappedRwLockBellWriteGuard, RwLockBellReadGuard,
    RwLockBellWriteGuard,
};
use super::hold::WriteHold;
use super::{answers_write, RwLockBell};
use crate::state::LockState;

verus! {

/// A factory that builds one callback does what that callback does when it is handed
/// over ready: an attempt with either comes to the same.
pub proof fn law_a_factory_of_one_callback_is_that_callback<'a, R: ?Sized, G, F, C, B>(
    bell: &LockState,
    raw: &'a R,
    attempt: F,
    callback: C,
    factory: B,
    outcome: Option<G>,
) where
    F: FnOnce(&'a R) -> Option<G>,
    C: FnOnce() + Send + 'static,
    B: FnOnce() -> C,

    requires
        factory.ensures((), callback),
        forall|built: C| #[trigger] factory.ensures((), built) ==> built == callback,
    ensures
        bell.settles_or(raw, attempt, callback, outcome) <==> bell.settles_or_else(
            raw,
            attempt,
            factory,
            outcome,
        ),
{
}

/// The same of the lock itself.
pub proof fn law_try_write_or_else_of_one_callback_is_try_write_or<'a, T: ?Sized, C, B>(
    lock: &'a RwLockBell<T>,
    callback: C,
    factory: B,
    held: Option<WriteHold<'a, T>>,
) where C: FnOnce() + Send + 'static, B: FnOnce() -> C
    requires
        factory.ensures((), callback),
        forall|built: C| #[trigger] factory.ensures((), built) ==> built == callback,
    ensures
        lock.settles_write_or(callback, held) <==> lock.settles_write_or_else(factory, held),
{
}

/// An attempt through an `Arc` that tries the lock as `try_write` does comes to what
/// a borrowed attempt comes to, and leaves the callback in the same queue.
pub proof fn law_an_attempt_through_an_arc_is_an_attempt<'a, T: ?Sized, F, C>(
    lock: &'a RwLockBell<T>,
    attempt: F,
    callback: C,
    held: Option<WriteHold<'a, T>>,
) where
    F: FnOnce(&'a RwLock<RawRwLock, T>) -> Option<WriteHold<'a, T>>,
    C: FnOnce() + Send + 'static,

    requires
        forall|answer: Option<WriteHold<'a, T>>| #[trigger]
            attempt.ensures((lock.lock(),), answer) <==> answers_write(lock.lock(), answer),
    ensures
        lock.bell().settles_or(lock.lock(), attempt, callback, held) <==> {
            &&& lock.settles_write_or(callback, held)
            &&& lock.bell().attempt_made(lock.lock(), attempt, held)
        },
{
}

/// The same of attempts with a factory.
pub proof fn law_an_attempt_through_an_arc_builds_like_an_attempt<'a, T: ?Sized, F, C, B>(
    lock: &'a RwLockBell<T>,
    attempt: F,
    factory: B,
    held: Option<WriteHold<'a, T>>,
) where
    F: FnOnce(&'a RwLock<RawRwLock, T>) -> Option<WriteHold<'a, T>>,
    C: FnOnce() + Send + 'static,
    B: FnOnce() -> C,

    requires
        forall|answer: Option<WriteHold<'a, T>>| #[trigger]
            attempt.ensures((lock.lock(),), answer) <==> answers_write(lock.lock(), answer),
    ensures
        lock.bell().settles_or_else(lock.lock(), attempt, factory, held) <==> {
            &&& lock.settles_write_or_else(factory, held)
            &&& lock.bell().attempt_made(lock.lock(), attempt, held)
        },
{
}

/// Mapping a shared guard by `f` and then by `g` is mapping it by both.
pub proof fn law_read_map_after_map<'a, T: ?Sized, U: ?Sized, V: ?Sized, F, G>(
    guard: RwLockBellReadGuard<'a, T>,
    f: F,
    once: MappedRwLockBellReadGuard<'a, U>,
    g: G,
    twice: MappedRwLockBellReadGuard<'a, V>,
    f_of: spec_fn(&T) -> &U,
    g_of: spec_fn(&U) -> &V,
) where F: FnOnce(&T) -> &U, G: FnOnce(&U) -> &V
    requires
        forall|value: &T, found: &U| #[trigger] f.ensures((value,), found) ==> found == f_of(value),
        forall|value: &U, found: &V| #[trigger] g.ensures((value,), found) ==> found == g_of(value),
        f.ensures((guard.value(),), once.value()),
        g.ensures((once.value(),), twice.value()),
    ensures
        twice.value() == g_of(f_of(guard.value())),
{
}

/// Mapping an exclusive guard by `f` and then by `g` is mapping it by both.
pub proof fn law_write_map_after_map<'a, T: ?Sized, U: ?Sized, V: ?Sized, F, G>(
    guard: RwLockBellWriteGuard<'a, T>,
    f: F,
    once: MappedRwLockBellWriteGuard<'a, U>,
    g: G,
    twice: MappedRwLockBellWriteGuard<'a, V>,
    f_of: spec_fn(&T) -> &U,
    g_of: spec_fn(&U) -> &V,
) where F: FnOnce(&mut T) -> &mut U, G: FnOnce(&mut U) -> &mut V
    requires
        forall|value: &mut T, found: &mut U| #[trigger]
            f.ensures((value,), found) ==> &*found == f_of(&*value),
        forall|value: &mut U, found: &mut V| #[trigger]
            g.ensures((value,), found) ==> &*found == g_of(&*value),
        exists|value: &mut T, found: &mut U|
            {
                &&& &*value == guard.value()
                &&& #[trigger] f.ensures((value,), found)
                &&& &*found == once.value()
            },
        exists|value: &mut U, found: &mut V|
            {
                &&& &*value == once.value()
                &&& #[trigger] g.ensures((value,), found)
                &&& &*found == twice.value()
            },
    ensures
        twice.value() == g_of(f_of(guard.value())),
{
}

} // verus!

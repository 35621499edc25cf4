//! The reader-writer lock of `parking_lot` that guards the data.
//!
//! Everything in this file but the specifications is trusted: the types are opaque,
//! and each function is one call whose contract is taken from the documentation and
//! the source of the function that it calls.
//!
//! What a lock protects, and whether it can be had, can change behind a shared
//! reference, so most of these functions claim nothing of what they return. That it
//! is *their* reply is what the contracts of their callers speak of: see the
//! specifications in [`rwlock`](super).
//!
//! A call that runs no function of the caller's opens no invariant: `parking_lot` knows
//! of none.
use parking_lot::lock_api::{
    MappedRwLockReadGuard, MappedRwLockWriteGuard, RwLock, RwLockReadGuard, RwLockWriteGuard,
};
use parking_lot::RawRwLock;
use vstd::prelude::*;

use super::{same_lock, single_valued, Held};

verus! {

/// `lock_api::RwLock`, opaque.
#[verifier::external_type_specification]
#[verifier::external_body]
#[verifier::reject_recursive_types(R)]
#[verifier::reject_recursive_types(T)]
pub struct ExRwLock<R, T: ?Sized>(RwLock<R, T>);

/// `parking_lot::RawRwLock`, opaque.
#[verifier::external_type_specification]
#[verifier::external_body]
pub struct ExRawRwLock(RawRwLock);

/// A `parking_lot::RwLockReadGuard`. The lock is released when it is dropped.
#[verifier::external_body]
#[verifier::reject_recursive_types(T)]
pub struct ReadHold<'a, T: ?Sized>(RwLockReadGuard<'a, RawRwLock, T>);

/// A `parking_lot::MappedRwLockReadGuard`. The lock is released when it is
/// dropped.
#[verifier::external_body]
#[verifier::reject_recursive_types(T)]
pub struct MappedReadHold<'a, T: ?Sized>(MappedRwLockReadGuard<'a, RawRwLock, T>);

/// A `parking_lot::RwLockWriteGuard`. The lock is released when it is dropped.
#[verifier::external_body]
#[verifier::reject_recursive_types(T)]
pub struct WriteHold<'a, T: ?Sized>(RwLockWriteGuard<'a, RawRwLock, T>);

/// A `parking_lot::MappedRwLockWriteGuard`. The lock is released when it is
/// dropped.
#[verifier::external_body]
#[verifier::reject_recursive_types(T)]
pub struct MappedWriteHold<'a, T: ?Sized>(MappedRwLockWriteGuard<'a, RawRwLock, T>);

/// Whether `mapped` gives access to what `f` finds in the value of `hold`.
pub open spec fn maps<T: ?Sized, U: ?Sized, H: Held<T>, M: Held<U>, F: FnOnce(&T) -> &U>(
    hold: H,
    f: F,
    mapped: M,
) -> bool {
    exists|value: &T, found: &U|
        hold.reads(value) && #[trigger] f.ensures((value,), found) && mapped.reads(found)
}

/// Whether `mapped` gives access to what `f` finds in the value of `hold`, or is
/// `None` because `f` finds nothing there.
pub open spec fn tries_map<
    T: ?Sized,
    U: ?Sized,
    H: Held<T>,
    M: Held<U>,
    F: FnOnce(&T) -> Option<&U>,
>(hold: H, f: F, mapped: Option<M>) -> bool {
    match mapped {
        Some(mapped) => exists|value: &T, found: &U|
            hold.reads(value) && #[trigger] f.ensures((value,), Some(found)) && mapped.reads(found),
        None => exists|value: &T| hold.reads(value) && #[trigger] f.ensures((value,), None),
    }
}

/// Whether `mapped` gives access to what `f` finds in the value of `hold`, or is the
/// error of `f` for that value.
pub open spec fn tries_map_or_err<
    T: ?Sized,
    U: ?Sized,
    E,
    H: Held<T>,
    M: Held<U>,
    F: FnOnce(&T) -> Result<&U, E>,
>(hold: H, f: F, mapped: Result<M, E>) -> bool {
    match mapped {
        Ok(mapped) => exists|value: &T, found: &U|
            hold.reads(value) && #[trigger] f.ensures((value,), Ok(found)) && mapped.reads(found),
        Err(error) => exists|value: &T|
            hold.reads(value) && #[trigger] f.ensures((value,), Err(error)),
    }
}

/// Whether `mapped` gives access to what `f` finds in the value of `hold`.
pub open spec fn maps_mut<T: ?Sized, U: ?Sized, H: Held<T>, M: Held<U>, F: FnOnce(&mut T) -> &mut U>(
    hold: H,
    f: F,
    mapped: M,
) -> bool {
    exists|value: &mut T, found: &mut U|
        hold.reads(&*value) && #[trigger] f.ensures((value,), found) && mapped.reads(&*found)
}

/// Whether `mapped` gives access to what `f` finds in the value of `hold`.
pub open spec fn tries_map_mut<
    T: ?Sized,
    U: ?Sized,
    H: Held<T>,
    M: Held<U>,
    F: FnOnce(&mut T) -> Option<&mut U>,
>(hold: H, f: F, mapped: M) -> bool {
    exists|value: &mut T, found: &mut U|
        hold.reads(&*value) && #[trigger] f.ensures((value,), Some(found)) && mapped.reads(&*found)
}

/// Whether `mapped` gives access to what `f` finds in the value of `hold`.
pub open spec fn tries_map_or_err_mut<
    T: ?Sized,
    U: ?Sized,
    E,
    H: Held<T>,
    M: Held<U>,
    F: FnOnce(&mut T) -> Result<&mut U, E>,
>(hold: H, f: F, mapped: M) -> bool {
    exists|value: &mut T, found: &mut U|
        hold.reads(&*value) && #[trigger] f.ensures((value,), Ok(found)) && mapped.reads(&*found)
}

/// Calls `lock_api::RwLock::new`. The lock starts out unlocked and holding
/// `value`; since that can change behind a shared reference, nothing is claimed
/// of the result.
#[verifier::external_body]
pub(crate) fn new_rwlock<T>(value: T) -> RwLock<RawRwLock, T>
    opens_invariants none
{
    RwLock::new(value)
}

/// Calls `lock_api::RwLock::into_inner`. Nothing is claimed of the value, which
/// is whatever the last writer left.
#[verifier::external_body]
pub(crate) fn into_inner<T>(lock: RwLock<RawRwLock, T>) -> T
    opens_invariants none
{
    lock.into_inner()
}

/// Calls `lock_api::RwLock::get_mut`, which borrows the value and leaves the lock
/// what it is. Nothing is claimed of the value, which is whatever the last writer
/// left.
#[verifier::external_body]
pub(crate) fn get_mut<T: ?Sized>(lock: &mut RwLock<RawRwLock, T>) -> (value: &mut T)
    ensures
        &*final(lock) == &*old(lock),
    opens_invariants none
{
    lock.get_mut()
}

/// Calls `lock_api::RwLock::read`, which blocks until the lock can be shared. Nobody
/// writes while it is, so the guard always dereferences to the same value.
#[verifier::external_body]
pub(crate) fn hold_read<'a, T: ?Sized>(lock: &'a RwLock<RawRwLock, T>) -> (held: ReadHold<'a, T>)
    ensures
        single_valued(&held),
    opens_invariants none
{
    ReadHold(lock.read())
}

/// Calls `lock_api::RwLock::try_read`. Whether the lock can be shared is up to
/// the other threads. The guard always dereferences to the same value.
#[verifier::external_body]
pub(crate) fn try_hold_read<'a, T: ?Sized>(lock: &'a RwLock<RawRwLock, T>) -> (held: Option<
    ReadHold<'a, T>,
>)
    ensures
        held matches Some(held) ==> single_valued(&held),
    opens_invariants none
{
    match lock.try_read() {
        Some(guard) => Some(ReadHold(guard)),
        None => None,
    }
}

/// Calls `lock_api::RwLock::write`, which blocks until the lock is free. Nobody else
/// writes while it is held, so the guard dereferences to the same value until it is
/// written through.
#[verifier::external_body]
pub(crate) fn hold_write<'a, T: ?Sized>(lock: &'a RwLock<RawRwLock, T>) -> (held: WriteHold<'a, T>)
    ensures
        single_valued(&held),
    opens_invariants none
{
    WriteHold(lock.write())
}

/// Calls `lock_api::RwLock::try_write`. Whether the lock is free is up to the
/// other threads. The guard dereferences to the same value until it is written
/// through.
#[verifier::external_body]
pub(crate) fn try_hold_write<'a, T: ?Sized>(lock: &'a RwLock<RawRwLock, T>) -> (held: Option<
    WriteHold<'a, T>,
>)
    ensures
        held matches Some(held) ==> single_valued(&held),
    opens_invariants none
{
    match lock.try_write() {
        Some(guard) => Some(WriteHold(guard)),
        None => None,
    }
}

/// Calls `lock_api::RwLock::is_locked`. The answer is up to the other threads.
#[verifier::external_body]
pub(crate) fn is_locked<T: ?Sized>(lock: &RwLock<RawRwLock, T>) -> bool
    opens_invariants none
{
    lock.is_locked()
}

/// Calls `lock_api::RwLock::is_locked_exclusive`. The answer is up to the other
/// threads.
#[verifier::external_body]
pub(crate) fn is_locked_exclusive<T: ?Sized>(lock: &RwLock<RawRwLock, T>) -> bool
    opens_invariants none
{
    lock.is_locked_exclusive()
}

/// Calls `Deref::deref` of `lock_api::RwLockReadGuard`.
/// Nothing is claimed of the value here; that it is always the same one is claimed
/// where the guard comes from.
#[verifier::external_body]
pub(crate) fn read_deref<'g, 'a, T: ?Sized>(hold: &'g ReadHold<'a, T>) -> &'g T {
    &*hold.0
}

/// Calls `lock_api::RwLockReadGuard::map`, which applies `f` once, to the value,
/// and keeps the lock: the result gives access to what `f` found, and to one value
/// only.
#[verifier::external_body]
pub(crate) fn read_map<'a, T: ?Sized, U: ?Sized, F: FnOnce(&T) -> &U>(
    hold: ReadHold<'a, T>,
    f: F,
) -> (mapped: MappedReadHold<'a, U>)
    requires
        forall|value: &T| hold.reads(value) ==> #[trigger] f.requires((value,)),
    ensures
        maps(hold, f, mapped),
        single_valued(&mapped),
{
    MappedReadHold(RwLockReadGuard::map(hold.0, f))
}

/// Calls `lock_api::RwLockReadGuard::try_map`, which applies `f` once, to the
/// value, and keeps the lock: it returns the component that `f` found, or the
/// guard itself if `f` found none.
#[verifier::external_body]
pub(crate) fn read_try_map<'a, T: ?Sized, U: ?Sized, F: FnOnce(&T) -> Option<&U>>(
    hold: ReadHold<'a, T>,
    f: F,
) -> (mapped: Result<MappedReadHold<'a, U>, ReadHold<'a, T>>)
    requires
        forall|value: &T| hold.reads(value) ==> #[trigger] f.requires((value,)),
    ensures
        match mapped {
            Ok(mapped) => single_valued(&mapped) && tries_map(hold, f, Some(mapped)),
            Err(same) => same == hold && tries_map(hold, f, None::<MappedReadHold<'a, U>>),
        },
{
    match RwLockReadGuard::try_map(hold.0, f) {
        Ok(mapped) => Ok(MappedReadHold(mapped)),
        Err(same) => Err(ReadHold(same)),
    }
}

/// Calls `lock_api::RwLockReadGuard::try_map_or_err`, which applies `f` once, to
/// the value, and keeps the lock: it returns the component that `f` found, or the
/// guard itself with the error of `f`.
#[verifier::external_body]
pub(crate) fn read_try_map_or_err<'a, T: ?Sized, U: ?Sized, F: FnOnce(&T) -> Result<&U, E>, E>(
    hold: ReadHold<'a, T>,
    f: F,
) -> (mapped: Result<MappedReadHold<'a, U>, (ReadHold<'a, T>, E)>)
    requires
        forall|value: &T| hold.reads(value) ==> #[trigger] f.requires((value,)),
    ensures
        match mapped {
            Ok(mapped) => {
                &&& single_valued(&mapped)
                &&& tries_map_or_err(hold, f, Ok::<_, E>(mapped))
            },
            Err((same, error)) => {
                &&& same == hold
                &&& tries_map_or_err(hold, f, Err::<MappedReadHold<'a, U>, _>(error))
            },
        },
{
    match RwLockReadGuard::try_map_or_err(hold.0, f) {
        Ok(mapped) => Ok(MappedReadHold(mapped)),
        Err((same, error)) => Err((ReadHold(same), error)),
    }
}

/// Calls `Deref::deref` of `lock_api::MappedRwLockReadGuard`.
/// Nothing is claimed of the value here; that it is always the same one is claimed
/// where the guard comes from.
#[verifier::external_body]
pub(crate) fn mapped_read_deref<'g, 'a, T: ?Sized>(hold: &'g MappedReadHold<'a, T>) -> &'g T {
    &*hold.0
}

/// Calls `lock_api::MappedRwLockReadGuard::map`, which applies `f` once, to the value,
/// and keeps the lock: the result gives access to what `f` found, and to one value
/// only.
#[verifier::external_body]
pub(crate) fn mapped_read_map<'a, T: ?Sized, U: ?Sized, F: FnOnce(&T) -> &U>(
    hold: MappedReadHold<'a, T>,
    f: F,
) -> (mapped: MappedReadHold<'a, U>)
    requires
        forall|value: &T| hold.reads(value) ==> #[trigger] f.requires((value,)),
    ensures
        maps(hold, f, mapped),
        single_valued(&mapped),
{
    MappedReadHold(MappedRwLockReadGuard::map(hold.0, f))
}

/// Calls `lock_api::MappedRwLockReadGuard::try_map`, which applies `f` once, to the
/// value, and keeps the lock: it returns the component that `f` found, or the
/// guard itself if `f` found none.
#[verifier::external_body]
pub(crate) fn mapped_read_try_map<'a, T: ?Sized, U: ?Sized, F: FnOnce(&T) -> Option<&U>>(
    hold: MappedReadHold<'a, T>,
    f: F,
) -> (mapped: Result<MappedReadHold<'a, U>, MappedReadHold<'a, T>>)
    requires
        forall|value: &T| hold.reads(value) ==> #[trigger] f.requires((value,)),
    ensures
        match mapped {
            Ok(mapped) => single_valued(&mapped) && tries_map(hold, f, Some(mapped)),
            Err(same) => same == hold && tries_map(hold, f, None::<MappedReadHold<'a, U>>),
        },
{
    match MappedRwLockReadGuard::try_map(hold.0, f) {
        Ok(mapped) => Ok(MappedReadHold(mapped)),
        Err(same) => Err(MappedReadHold(same)),
    }
}

/// Calls `lock_api::MappedRwLockReadGuard::try_map_or_else`, which applies `f` once, to
/// the value, and keeps the lock: it returns the component that `f` found, or the
/// guard itself with the error of `f`.
#[verifier::external_body]
pub(crate) fn mapped_read_try_map_or_err<'a, T: ?Sized, U: ?Sized, F: FnOnce(&T) -> Result<&U, E>, E>(
    hold: MappedReadHold<'a, T>,
    f: F,
) -> (mapped: Result<MappedReadHold<'a, U>, (MappedReadHold<'a, T>, E)>)
    requires
        forall|value: &T| hold.reads(value) ==> #[trigger] f.requires((value,)),
    ensures
        match mapped {
            Ok(mapped) => {
                &&& single_valued(&mapped)
                &&& tries_map_or_err(hold, f, Ok::<_, E>(mapped))
            },
            Err((same, error)) => {
                &&& same == hold
                &&& tries_map_or_err(hold, f, Err::<MappedReadHold<'a, U>, _>(error))
            },
        },
{
    match MappedRwLockReadGuard::try_map_or_else(hold.0, f) {
        Ok(mapped) => Ok(MappedReadHold(mapped)),
        Err((same, error)) => Err((MappedReadHold(same), error)),
    }
}

/// Calls `Deref::deref` of `lock_api::RwLockWriteGuard`.
/// Nothing is claimed of the value here; that it is always the same one is claimed
/// where the guard comes from.
#[verifier::external_body]
pub(crate) fn write_deref<'g, 'a, T: ?Sized>(hold: &'g WriteHold<'a, T>) -> &'g T {
    &*hold.0
}

/// Calls `DerefMut::deref_mut` of `lock_api::RwLockWriteGuard`. It is claimed not
/// to unwind, to refer to what `Deref::deref` refers to, before and after, and to
/// leave a guard of the same lock, which dereferences to one value again.
#[verifier::external_body]
pub(crate) fn write_deref_mut<'g, 'a, T: ?Sized>(hold: &'g mut WriteHold<'a, T>) -> (value: &'g mut T)
    ensures
        old(hold).reads(&*value),
        final(hold).reads(&*final(value)),
        single_valued(&*final(hold)),
        same_lock(*old(hold), *final(hold)),
    opens_invariants none
    no_unwind
{
    &mut *hold.0
}

/// Calls `lock_api::RwLockWriteGuard::map`, which applies `f` once, to the value,
/// and keeps the lock: the result gives access to what `f` found, and to one value
/// only.
#[verifier::external_body]
pub(crate) fn write_map<'a, T: ?Sized, U: ?Sized, F: FnOnce(&mut T) -> &mut U>(
    hold: WriteHold<'a, T>,
    f: F,
) -> (mapped: MappedWriteHold<'a, U>)
    requires
        forall|value: &mut T| hold.reads(&*value) ==> #[trigger] f.requires((value,)),
    ensures
        maps_mut(hold, f, mapped),
        single_valued(&mapped),
{
    MappedWriteHold(RwLockWriteGuard::map(hold.0, f))
}

/// Calls `lock_api::RwLockWriteGuard::try_map`, which applies `f` once, to the
/// value, and keeps the lock: it returns the component that `f` found, or the
/// guard itself, with what `f` left in it, if `f` found none.
#[verifier::external_body]
pub(crate) fn write_try_map<'a, T: ?Sized, U: ?Sized, F: FnOnce(&mut T) -> Option<&mut U>>(
    hold: WriteHold<'a, T>,
    f: F,
) -> (mapped: Result<MappedWriteHold<'a, U>, WriteHold<'a, T>>)
    requires
        forall|value: &mut T| hold.reads(&*value) ==> #[trigger] f.requires((value,)),
    ensures
        match mapped {
            Ok(mapped) => single_valued(&mapped) && tries_map_mut(hold, f, mapped),
            Err(same) => {
                &&& single_valued(&same)
                &&& same_lock(hold, same)
                &&& exists|value: &mut T|
                    {
                        &&& hold.reads(&*value)
                        &&& #[trigger] f.ensures((value,), None)
                        &&& same.reads(&*final(value))
                    }
            },
        },
{
    match RwLockWriteGuard::try_map(hold.0, f) {
        Ok(mapped) => Ok(MappedWriteHold(mapped)),
        Err(same) => Err(WriteHold(same)),
    }
}

/// Calls `lock_api::RwLockWriteGuard::try_map_or_err`, which applies `f` once, to
/// the value, and keeps the lock: it returns the component that `f` found, or the
/// guard itself, with what `f` left in it, and the error of `f`.
#[verifier::external_body]
pub(crate) fn write_try_map_or_err<'a, T: ?Sized, U: ?Sized, F: FnOnce(&mut T) -> Result<&mut U, E>, E>(
    hold: WriteHold<'a, T>,
    f: F,
) -> (mapped: Result<MappedWriteHold<'a, U>, (WriteHold<'a, T>, E)>)
    requires
        forall|value: &mut T| hold.reads(&*value) ==> #[trigger] f.requires((value,)),
    ensures
        match mapped {
            Ok(mapped) => {
                &&& single_valued(&mapped)
                &&& tries_map_or_err_mut(hold, f, mapped)
            },
            Err((same, error)) => {
                &&& single_valued(&same)
                &&& same_lock(hold, same)
                &&& exists|value: &mut T, answer: Result<&mut U, E>|
                    {
                        &&& hold.reads(&*value)
                        &&& #[trigger] f.ensures((value,), answer)
                        &&& answer == Err::<&mut U, E>(error)
                        &&& same.reads(&*final(value))
                    }
            },
        },
{
    match RwLockWriteGuard::try_map_or_err(hold.0, f) {
        Ok(mapped) => Ok(MappedWriteHold(mapped)),
        Err((same, error)) => Err((WriteHold(same), error)),
    }
}

/// Calls `Deref::deref` of `lock_api::MappedRwLockWriteGuard`.
/// Nothing is claimed of the value here; that it is always the same one is claimed
/// where the guard comes from.
#[verifier::external_body]
pub(crate) fn mapped_write_deref<'g, 'a, T: ?Sized>(hold: &'g MappedWriteHold<'a, T>) -> &'g T {
    &*hold.0
}

/// Calls `DerefMut::deref_mut` of `lock_api::MappedRwLockWriteGuard`. It is claimed not
/// to unwind, to refer to what `Deref::deref` refers to, before and after, and to
/// leave a guard that dereferences to one value again.
#[verifier::external_body]
pub(crate) fn mapped_write_deref_mut<'g, 'a, T: ?Sized>(hold: &'g mut MappedWriteHold<'a, T>) -> (value: &'g mut T)
    ensures
        old(hold).reads(&*value),
        final(hold).reads(&*final(value)),
        single_valued(&*final(hold)),
    opens_invariants none
    no_unwind
{
    &mut *hold.0
}

/// Calls `lock_api::MappedRwLockWriteGuard::map`, which applies `f` once, to the value,
/// and keeps the lock: the result gives access to what `f` found, and to one value
/// only.
#[verifier::external_body]
pub(crate) fn mapped_write_map<'a, T: ?Sized, U: ?Sized, F: FnOnce(&mut T) -> &mut U>(
    hold: MappedWriteHold<'a, T>,
    f: F,
) -> (mapped: MappedWriteHold<'a, U>)
    requires
        forall|value: &mut T| hold.reads(&*value) ==> #[trigger] f.requires((value,)),
    ensures
        maps_mut(hold, f, mapped),
        single_valued(&mapped),
{
    MappedWriteHold(MappedRwLockWriteGuard::map(hold.0, f))
}

/// Calls `lock_api::MappedRwLockWriteGuard::try_map`, which applies `f` once, to the
/// value, and keeps the lock: it returns the component that `f` found, or the
/// guard itself, with what `f` left in it, if `f` found none.
#[verifier::external_body]
pub(crate) fn mapped_write_try_map<'a, T: ?Sized, U: ?Sized, F: FnOnce(&mut T) -> Option<&mut U>>(
    hold: MappedWriteHold<'a, T>,
    f: F,
) -> (mapped: Result<MappedWriteHold<'a, U>, MappedWriteHold<'a, T>>)
    requires
        forall|value: &mut T| hold.reads(&*value) ==> #[trigger] f.requires((value,)),
    ensures
        match mapped {
            Ok(mapped) => single_valued(&mapped) && tries_map_mut(hold, f, mapped),
            Err(same) => {
                &&& single_valued(&same)
                &&& exists|value: &mut T|
                    {
                        &&& hold.reads(&*value)
                        &&& #[trigger] f.ensures((value,), None)
                        &&& same.reads(&*final(value))
                    }
            },
        },
{
    match MappedRwLockWriteGuard::try_map(hold.0, f) {
        Ok(mapped) => Ok(MappedWriteHold(mapped)),
        Err(same) => Err(MappedWriteHold(same)),
    }
}

/// Calls `lock_api::MappedRwLockWriteGuard::try_map_or_err`, which applies `f` once, to
/// the value, and keeps the lock: it returns the component that `f` found, or the
/// guard itself, with what `f` left in it, and the error of `f`.
#[verifier::external_body]
pub(crate) fn mapped_write_try_map_or_err<'a, T: ?Sized, U: ?Sized, F: FnOnce(&mut T) -> Result<&mut U, E>, E>(
    hold: MappedWriteHold<'a, T>,
    f: F,
) -> (mapped: Result<MappedWriteHold<'a, U>, (MappedWriteHold<'a, T>, E)>)
    requires
        forall|value: &mut T| hold.reads(&*value) ==> #[trigger] f.requires((value,)),
    ensures
        match mapped {
            Ok(mapped) => {
                &&& single_valued(&mapped)
                &&& tries_map_or_err_mut(hold, f, mapped)
            },
            Err((same, error)) => {
                &&& single_valued(&same)
                &&& exists|value: &mut T, answer: Result<&mut U, E>|
                    {
                        &&& hold.reads(&*value)
                        &&& #[trigger] f.ensures((value,), answer)
                        &&& answer == Err::<&mut U, E>(error)
                        &&& same.reads(&*final(value))
                    }
            },
        },
{
    match MappedRwLockWriteGuard::try_map_or_err(hold.0, f) {
        Ok(mapped) => Ok(MappedWriteHold(mapped)),
        Err((same, error)) => Err((MappedWriteHold(same), error)),
    }
}

} // verus!

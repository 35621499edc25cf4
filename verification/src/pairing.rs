//! How acquiring and releasing belong together.
//!
//! The contracts of the functions that acquire, release and count speak of each other,
//! through the spec functions of this file, in this order:
//!
//! - Who begins an operation out of nothing promises that whatever holds the lock can
//!   be released ([`can_be_ended`]).
//! - Who releases promises that it is the bell of its lock that rings, however the lock
//!   was acquired ([`ends_what_is_acquired`]).
//! - Who counts a reader promises so of the writers ([`writers_ring`]) and of the write
//!   attempts ([`attempts_ring`]), and who lets a write attempt through, of the writers.
//! - Who acquires promises that a lock can be looked at, and a guard that owns its lock be
//!   given back ([`owned_can_be_ended`]).
//!
//! A contract must not depend on itself. So nothing that is further down can be done by
//! way of what is further up: no release begins an operation of its own, no acquisition
//! releases anything, no write attempt counts a reader, no writer touches the bookkeeping
//! before it releases, and looking at a lock or through a guard does neither.
//!
//! What the spec functions speak of is gathered in functions of this file, one for each
//! group: they do with the calls of `parking_lot`, and with callbacks that do nothing,
//! what others do with functions of their own. Nothing else calls them.
use std::ops::{Deref, DerefMut};
use std::sync::Arc;

use vstd::prelude::*;

use crate::callback::Callback;
use crate::inner::{Operation, Phase, Progress};
use crate::rwlock::guard::{
    ArcRwLockBellReadGuard, ArcRwLockBellWriteGuard, MappedRwLockBellReadGuard,
    MappedRwLockBellWriteGuard, RwLockBellReadGuard, RwLockBellWriteGuard, Unlocked,
};
use crate::rwlock::hold::{
    hold_read, hold_write, is_locked, try_hold_read, try_hold_write, ReadHold, WriteHold,
};
use crate::rwlock::RwLockBell;
use crate::state::{accepts_callable, prints_state, LockState};
use crate::text::raw_text;

verus! {

/// Calls `callback`, as the simplest of all ring functions.
fn ring_plainly(ringer: (), callback: Callback) -> (rung: ((), Option<()>))
    requires
        callback.callable(),
    ensures
        callback.delivered(),
        rung.1 is None,
{
    callback.call();
    (ringer, None)
}

/// A guard that was obtained through an [`Arc`].
#[verifier::reject_recursive_types(T)]
enum OwnedGuard<'a, T: ?Sized> {
    Read(ArcRwLockBellReadGuard<T, ReadHold<'a, T>>),
    Write(ArcRwLockBellWriteGuard<T, WriteHold<'a, T>>),
}

impl<'a, T: ?Sized> OwnedGuard<'a, T> {
    /// The bell that giving the guard back rings.
    spec fn bell(&self) -> &LockState {
        match self {
            OwnedGuard::Read(guard) => guard.bell(),
            OwnedGuard::Write(guard) => guard.bell(),
        }
    }

    /// Gives the guard back, and calls every callback that is due.
    fn give_back(self) -> (unlocked: Unlocked<(), ()>)
        ensures
            unlocked.rang(ring_plainly, (), false),
            match self {
                OwnedGuard::Read(guard) => guard.bell().shared_released(
                    guard.held(),
                    unlocked.op@.batch,
                ),
                OwnedGuard::Write(guard) => guard.bell().exclusive_released(
                    guard.held(),
                    unlocked.op@.batch,
                ),
            },
    {
        assert(accepts_callable::<(), (), _>(ring_plainly));
        match self {
            OwnedGuard::Read(guard) => {
                ArcRwLockBellReadGuard::unlock(guard, (), ring_plainly, false)
            },
            OwnedGuard::Write(guard) => {
                ArcRwLockBellWriteGuard::unlock(guard, (), ring_plainly, false)
            },
        }
    }
}

/// A guard of any flavour.
#[verifier::reject_recursive_types(T)]
enum AnyGuard<'a, T: ?Sized> {
    Read(RwLockBellReadGuard<'a, T>),
    Write(RwLockBellWriteGuard<'a, T>),
    MappedRead(MappedRwLockBellReadGuard<'a, T>),
    MappedWrite(MappedRwLockBellWriteGuard<'a, T>),
    Owned(OwnedGuard<'a, T>),
}

impl<'a, T: ?Sized> AnyGuard<'a, T> {
    /// The bell that giving the guard back rings.
    spec fn bell(&self) -> &LockState {
        match self {
            AnyGuard::Read(guard) => guard.bell(),
            AnyGuard::Write(guard) => guard.bell(),
            AnyGuard::MappedRead(guard) => guard.bell(),
            AnyGuard::MappedWrite(guard) => guard.bell(),
            AnyGuard::Owned(guard) => guard.bell(),
        }
    }

    /// Gives the guard back, and calls every callback that is due.
    fn give_back(self) -> (unlocked: Unlocked<(), ()>)
        ensures
            unlocked.rang(ring_plainly, (), false),
    {
        assert(accepts_callable::<(), (), _>(ring_plainly));
        match self {
            AnyGuard::Read(guard) => RwLockBellReadGuard::unlock(guard, (), ring_plainly, false),
            AnyGuard::Write(guard) => RwLockBellWriteGuard::unlock(guard, (), ring_plainly, false),
            AnyGuard::MappedRead(guard) => {
                MappedRwLockBellReadGuard::unlock(guard, (), ring_plainly, false)
            },
            AnyGuard::MappedWrite(guard) => {
                MappedRwLockBellWriteGuard::unlock(guard, (), ring_plainly, false)
            },
            AnyGuard::Owned(guard) => guard.give_back(),
        }
    }
}

/// All of `value`, as a component of it.
fn all_of<T: ?Sized>(value: &T) -> (part: &T)
    ensures
        part == value,
{
    value
}

/// All of `value`, as a component of it that may be missing.
fn some_of<T: ?Sized>(value: &T) -> (part: Option<&T>)
    ensures
        part == Some(value),
{
    Some(value)
}

/// All of `value`, as a component of it that may be in error.
fn ok_of<T: ?Sized>(value: &T) -> (part: Result<&T, ()>)
    ensures
        part == Ok::<&T, ()>(value),
{
    Ok(value)
}

/// All of `value`, as a component of it.
fn all_of_mut<T: ?Sized>(value: &mut T) -> &mut T {
    value
}

/// All of `value`, as a component of it that may be missing.
fn some_of_mut<T: ?Sized>(value: &mut T) -> Option<&mut T> {
    Some(value)
}

/// All of `value`, as a component of it that may be in error.
fn ok_of_mut<T: ?Sized>(value: &mut T) -> Result<&mut T, ()> {
    Ok(value)
}

/// A way to map a guard.
enum Mapping {
    Whole,
    Maybe,
    OrErr,
}

impl<'a, T: ?Sized> AnyGuard<'a, T> {
    /// Maps the guard, in the given way, to all of its value. A guard that owns its lock
    /// stays as it is.
    fn map(self, mapping: Mapping) -> (mapped: Self)
        ensures
            mapped.bell() == self.bell(),
    {
        match self {
            AnyGuard::Read(guard) => match mapping {
                Mapping::Whole => AnyGuard::MappedRead(RwLockBellReadGuard::map(guard, all_of)),
                Mapping::Maybe => match RwLockBellReadGuard::try_map(guard, some_of) {
                    Ok(guard) => AnyGuard::MappedRead(guard),
                    Err(guard) => AnyGuard::Read(guard),
                },
                Mapping::OrErr => match RwLockBellReadGuard::try_map_or_err(guard, ok_of) {
                    Ok(guard) => AnyGuard::MappedRead(guard),
                    Err((guard, _)) => AnyGuard::Read(guard),
                },
            },
            AnyGuard::MappedRead(guard) => match mapping {
                Mapping::Whole => AnyGuard::MappedRead(MappedRwLockBellReadGuard::map(guard, all_of)),
                Mapping::Maybe => match MappedRwLockBellReadGuard::try_map(guard, some_of) {
                    Ok(guard) => AnyGuard::MappedRead(guard),
                    Err(guard) => AnyGuard::MappedRead(guard),
                },
                Mapping::OrErr => match MappedRwLockBellReadGuard::try_map_or_err(
                    guard,
                    ok_of,
                ) {
                    Ok(guard) => AnyGuard::MappedRead(guard),
                    Err((guard, _)) => AnyGuard::MappedRead(guard),
                },
            },
            AnyGuard::Write(guard) => match mapping {
                Mapping::Whole => AnyGuard::MappedWrite(RwLockBellWriteGuard::map(guard, all_of_mut)),
                Mapping::Maybe => match RwLockBellWriteGuard::try_map(guard, some_of_mut) {
                    Ok(guard) => AnyGuard::MappedWrite(guard),
                    Err(guard) => AnyGuard::Write(guard),
                },
                Mapping::OrErr => match RwLockBellWriteGuard::try_map_or_err(
                    guard,
                    ok_of_mut,
                ) {
                    Ok(guard) => AnyGuard::MappedWrite(guard),
                    Err((guard, _)) => AnyGuard::Write(guard),
                },
            },
            AnyGuard::MappedWrite(guard) => match mapping {
                Mapping::Whole => AnyGuard::MappedWrite(
                    MappedRwLockBellWriteGuard::map(guard, all_of_mut),
                ),
                Mapping::Maybe => match MappedRwLockBellWriteGuard::try_map(guard, some_of_mut) {
                    Ok(guard) => AnyGuard::MappedWrite(guard),
                    Err(guard) => AnyGuard::MappedWrite(guard),
                },
                Mapping::OrErr => match MappedRwLockBellWriteGuard::try_map_or_err(
                    guard,
                    ok_of_mut,
                ) {
                    Ok(guard) => AnyGuard::MappedWrite(guard),
                    Err((guard, _)) => AnyGuard::MappedWrite(guard),
                },
            },
            AnyGuard::Owned(guard) => AnyGuard::Owned(guard),
        }
    }
}

impl<'a, T: ?Sized> AnyGuard<'a, T> {
    /// The value that is guarded, if the guard does not own its lock.
    fn get(&self) -> (value: Option<&T>)
        ensures
            match self {
                AnyGuard::Read(guard) => value == Some(guard.value()),
                AnyGuard::Write(guard) => value == Some(guard.value()),
                AnyGuard::MappedRead(guard) => value == Some(guard.value()),
                AnyGuard::MappedWrite(guard) => value == Some(guard.value()),
                AnyGuard::Owned(_) => value is None,
            },
    {
        match self {
            AnyGuard::Read(guard) => Some(guard.deref()),
            AnyGuard::Write(guard) => Some(guard.deref()),
            AnyGuard::MappedRead(guard) => Some(guard.deref()),
            AnyGuard::MappedWrite(guard) => Some(guard.deref()),
            AnyGuard::Owned(_) => None,
        }
    }

    /// The value that is guarded, to be changed, if it may be and the guard does not own
    /// its lock.
    fn get_mut(&mut self) -> (value: Option<&mut T>)
        ensures
            value is Some <==> *old(self) is Write || *old(self) is MappedWrite,
    {
        match self {
            AnyGuard::Write(guard) => Some(guard.deref_mut()),
            AnyGuard::MappedWrite(guard) => Some(guard.deref_mut()),
            _ => None,
        }
    }
}

/// Releases `held`, the shared lock of `op`, and calls every callback that is due.
fn release_shared<'a, T: ?Sized>(lock: &RwLockBell<T>, op: &mut Operation, held: ReadHold<'a, T>)
    requires
        old(op)@ == Progress::at(Phase::HoldsShared),
    ensures
        final(op)@.phase is Over,
        lock.bell().shared_released(held, final(op)@.batch),
{
    assert(accepts_callable::<(), (), _>(ring_plainly));
    lock.raw().unlock_shared(op, held, (), ring_plainly, false);
}

/// Releases `held`, the exclusive lock of `op`, and calls every callback that is due.
fn release_exclusive<'a, T: ?Sized>(
    lock: &RwLockBell<T>,
    op: &mut Operation,
    held: WriteHold<'a, T>,
)
    requires
        old(op)@ == Progress::at(Phase::HoldsExclusive),
    ensures
        final(op)@.phase is Over,
        lock.bell().exclusive_released(held, final(op)@.batch),
{
    assert(accepts_callable::<(), (), _>(ring_plainly));
    lock.raw().unlock_exclusive(op, held, (), ring_plainly, false);
}

/// Prints `lock` if it can be shared at the moment, without ringing its bell.
fn look<T: ?Sized>(lock: &RwLockBell<T>) -> (text: Option<String>)
    ensures
        text matches Some(text) ==> exists|locked: bool, state: Seq<char>|
            prints_state(lock.bell(), state) && text@ == #[trigger] raw_text(locked, state),
{
    let raw = lock.raw();
    match raw.peek(try_hold_read) {
        Some(_) => Some(raw.debug_text(is_locked)),
        None => None,
    }
}

/// Acquires `lock` exclusively, by the calls of `parking_lot`, waiting for it or not.
fn acquire_exclusive<'a, T: ?Sized>(lock: &'a RwLockBell<T>, wait: bool) -> (guard: Option<
    RwLockBellWriteGuard<'a, T>,
>)
    ensures
        guard matches Some(guard) ==> guard.bell() == lock.bell(),
        wait ==> guard is Some,
{
    let raw = lock.raw();
    if wait {
        let (op, held) = raw.lock_exclusive(hold_write);
        Some(RwLockBellWriteGuard::new(op, held, raw.state()))
    } else {
        match raw.try_lock_exclusive(try_hold_write) {
            Some((op, held)) => Some(RwLockBellWriteGuard::new(op, held, raw.state())),
            None => None,
        }
    }
}

/// Acquires `lock` for sharing, by the calls of `parking_lot`, waiting for it or not.
fn acquire_shared<'a, T: ?Sized>(lock: &'a RwLockBell<T>, wait: bool) -> (guard: Option<
    RwLockBellReadGuard<'a, T>,
>)
    ensures
        guard matches Some(guard) ==> guard.bell() == lock.bell(),
        wait ==> guard is Some,
{
    let raw = lock.raw();
    if wait {
        let (op, held) = raw.lock_shared(hold_read);
        Some(RwLockBellReadGuard::new(op, held, raw.state()))
    } else {
        match raw.try_lock_shared(try_hold_read) {
            Some((op, held)) => Some(RwLockBellReadGuard::new(op, held, raw.state())),
            None => None,
        }
    }
}

/// Acquires `lock` exclusively, by the calls of `parking_lot`, or leaves `callback`, which
/// is `built` only if it is needed. The bell is asked directly if `raw` is set.
fn acquire_or<'a, T: ?Sized, C: FnOnce() + Send + 'static>(
    lock: &'a RwLockBell<T>,
    built: bool,
    raw: bool,
    callback: C,
) -> (guard: Option<RwLockBellWriteGuard<'a, T>>)
    requires
        callback.requires(()),
    ensures
        guard matches Some(guard) ==> guard.bell() == lock.bell(),
{
    let factory = move || -> (made: C)
        ensures
            made == callback,
    { callback };
    if !raw {
        if built {
            lock.try_write_or_else(factory)
        } else {
            lock.try_write_or(factory())
        }
    } else {
        let bell = lock.raw();
        let held = if built {
            bell.try_lock_exclusive_or_else(try_hold_write, factory)
        } else {
            bell.try_lock_exclusive_or(try_hold_write, factory())
        };
        match held {
            Ok((op, held)) => Some(RwLockBellWriteGuard::new(op, held, bell.state())),
            Err(_) => None,
        }
    }
}

/// Acquires `lock` as [`acquire_or`] does, with a callback that does nothing.
fn acquire_or_nothing<'a, T: ?Sized>(lock: &'a RwLockBell<T>, built: bool, raw: bool) -> (guard:
    Option<RwLockBellWriteGuard<'a, T>>)
    ensures
        guard matches Some(guard) ==> guard.bell() == lock.bell(),
{
    acquire_or(lock, built, raw, || {  })
}

/// A way to acquire a lock through an [`Arc`].
enum Way {
    Read,
    TryRead,
    Write,
    TryWrite,
    TryWriteOr,
    TryWriteOrElse,
}

/// Acquires `lock` through its [`Arc`] in the given way, by the calls of `parking_lot`,
/// leaving `callback` if it is one that leaves a callback.
fn acquire_arc_or<'a, T: ?Sized, C: FnOnce() + Send + 'static>(
    lock: &'a Arc<RwLockBell<T>>,
    way: Way,
    callback: C,
) -> (guard: Option<OwnedGuard<'a, T>>)
    requires
        callback.requires(()),
    ensures
        guard matches Some(guard) ==> guard.bell() == lock.bell(),
        guard matches Some(guard) ==> match way {
            Way::Read | Way::TryRead => guard is Read,
            _ => guard is Write,
        },
        (way is Read || way is Write) ==> guard is Some,
{
    let factory = move || -> (made: C)
        ensures
            made == callback,
    { callback };
    match way {
        Way::Read => Some(OwnedGuard::Read(lock.read_arc(hold_read))),
        Way::TryRead => match lock.try_read_arc(try_hold_read) {
            Some(guard) => Some(OwnedGuard::Read(guard)),
            None => None,
        },
        Way::Write => Some(OwnedGuard::Write(lock.write_arc(hold_write))),
        Way::TryWrite => match lock.try_write_arc(try_hold_write) {
            Some(guard) => Some(OwnedGuard::Write(guard)),
            None => None,
        },
        Way::TryWriteOr => match lock.try_write_arc_or(try_hold_write, factory()) {
            Some(guard) => Some(OwnedGuard::Write(guard)),
            None => None,
        },
        Way::TryWriteOrElse => match lock.try_write_arc_or_else(try_hold_write, factory) {
            Some(guard) => Some(OwnedGuard::Write(guard)),
            None => None,
        },
    }
}

/// Acquires `lock` as [`acquire_arc_or`] does, with a callback that does nothing.
fn acquire_arc<'a, T: ?Sized>(lock: &'a Arc<RwLockBell<T>>, way: Way) -> (guard: Option<
    OwnedGuard<'a, T>,
>)
    ensures
        guard matches Some(guard) ==> guard.bell() == lock.bell(),
{
    acquire_arc_or(lock, way, || {  })
}

/// Every write attempt that is past the door can be settled as lost, and the bookkeeping
/// can be printed.
pub closed spec fn can_be_settled() -> bool {
    &&& forall|state: &LockState| #[trigger] call_requires(LockState::debug_text, (state,))
    &&& forall|state: &LockState, op: &mut Operation, callback: Callback|
        (*op)@.phase is Tries && callback.callable() ==> #[trigger] call_requires(
            LockState::settle_loss,
            (state, op, callback),
        )
}

/// Why every write attempt can be settled.
pub(crate) proof fn lemma_can_be_settled()
    ensures
        can_be_settled(),
{
}

/// What is acquired exclusively rings the bell of its lock when it is given back.
pub closed spec fn writers_ring() -> bool {
    forall|lock: &RwLockBell<()>, wait: bool, guard: RwLockBellWriteGuard<'_, ()>| #[trigger]
        call_ensures(acquire_exclusive::<()>, (lock, wait), Some(guard)) ==> guard.bell()
            == lock.bell()
}

/// Why what is acquired exclusively rings the bell of its lock.
pub(crate) proof fn lemma_writers_ring()
    ensures
        writers_ring(),
{
}

/// What is acquired for sharing rings the bell of its lock when it is given back.
spec fn readers_ring() -> bool {
    forall|lock: &RwLockBell<()>, wait: bool, guard: RwLockBellReadGuard<'_, ()>| #[trigger]
        call_ensures(acquire_shared::<()>, (lock, wait), Some(guard)) ==> guard.bell()
            == lock.bell()
}

/// Why what is acquired for sharing rings the bell of its lock.
proof fn lemma_readers_ring()
    ensures
        readers_ring(),
{
}

/// What is acquired by an attempt that may leave a callback rings the bell of its lock
/// when it is given back.
pub closed spec fn attempts_ring() -> bool {
    forall|lock: &RwLockBell<()>, built: bool, raw: bool, guard: RwLockBellWriteGuard<'_, ()>|
        #[trigger]
        call_ensures(acquire_or_nothing::<()>, (lock, built, raw), Some(guard)) ==> guard.bell()
            == lock.bell()
}

/// Why what is acquired by such an attempt rings the bell of its lock.
pub(crate) proof fn lemma_attempts_ring()
    ensures
        attempts_ring(),
{
}

/// What is acquired from a lock, in whatever way, rings the bell of that lock when it is
/// given back.
pub closed spec fn ends_what_is_acquired() -> bool {
    &&& writers_ring()
    &&& readers_ring()
    &&& attempts_ring()
    &&& forall|lock: &Arc<RwLockBell<()>>, way: Way, guard: OwnedGuard<'_, ()>| #[trigger]
        call_ensures(acquire_arc::<()>, (lock, way), Some(guard)) ==> guard.bell() == lock.bell()
}

/// Why what is acquired rings the bell of its lock.
pub(crate) proof fn lemma_ends_what_is_acquired()
    ensures
        ends_what_is_acquired(),
{
    lemma_writers_ring();
    lemma_readers_ring();
    lemma_attempts_ring();
}

/// Every guard that was obtained through an [`Arc`] can be given back, and
/// every lock can be looked at.
pub closed spec fn owned_can_be_ended() -> bool {
    &&& forall|lock: &RwLockBell<()>| #[trigger] call_requires(look::<()>, (lock,))
    &&& forall|lock: &RwLockBell<()>| #[trigger] call_requires(RwLockBell::<()>::debug_text, (lock,))
    &&& forall|guard: OwnedGuard<'_, ()>| #[trigger]
        call_requires(OwnedGuard::<'_, ()>::give_back, (guard,))
}

/// Why every such guard can be given back, and every lock looked at.
pub(crate) proof fn lemma_owned_can_be_ended()
    ensures
        owned_can_be_ended(),
{
}

/// Every lock can be acquired, whoever has it.
pub closed spec fn can_be_acquired() -> bool {
    &&& forall|lock: &RwLockBell<()>| #[trigger] call_requires(RwLockBell::<()>::read, (lock,))
    &&& forall|lock: &RwLockBell<()>| #[trigger] call_requires(RwLockBell::<()>::try_read, (lock,))
    &&& forall|lock: &RwLockBell<()>| #[trigger] call_requires(RwLockBell::<()>::write, (lock,))
    &&& forall|lock: &RwLockBell<()>| #[trigger] call_requires(RwLockBell::<()>::try_write, (lock,))
}

/// Why every lock can be acquired.
pub(crate) proof fn lemma_can_be_acquired()
    ensures
        can_be_acquired(),
{
}

/// Every guard, whatever its flavour, can be looked through, can be mapped, and can be
/// given back; and every operation that holds the lock can be released without a guard.
pub closed spec fn can_be_ended() -> bool {
    &&& forall|lock: &RwLockBell<()>, op: &mut Operation, held: ReadHold<'_, ()>|
        (*op)@ == Progress::at(Phase::HoldsShared) ==> #[trigger] call_requires(
            release_shared::<()>,
            (lock, op, held),
        )
    &&& forall|lock: &RwLockBell<()>, op: &mut Operation, held: WriteHold<'_, ()>|
        (*op)@ == Progress::at(Phase::HoldsExclusive) ==> #[trigger] call_requires(
            release_exclusive::<()>,
            (lock, op, held),
        )
    &&& forall|guard: AnyGuard<'_, ()>| #[trigger]
        call_requires(AnyGuard::<'_, ()>::get, (&guard,))
    &&& forall|guard: &mut AnyGuard<'_, ()>| #[trigger]
        call_requires(AnyGuard::<'_, ()>::get_mut, (guard,))
    &&& forall|guard: AnyGuard<'_, ()>, mapping: Mapping| #[trigger]
        call_requires(AnyGuard::<'_, ()>::map, (guard, mapping))
    &&& forall|guard: AnyGuard<'_, ()>| #[trigger]
        call_requires(AnyGuard::<'_, ()>::give_back, (guard,))
}

/// Why every guard can be looked through, mapped and given back, and every operation
/// released.
pub(crate) proof fn lemma_can_be_ended()
    ensures
        can_be_ended(),
{
}

} // verus!

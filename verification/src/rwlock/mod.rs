//! The lock itself, on top of the one of `parking_lot`.
//!
//! Whether that lock can be had, and what it protects, is up to the other threads.
//! So the contracts say which call was made on which lock, and that its reply is
//! what came back: [`gives_read`], [`answers_write`] and their like stand for the
//! replies that a call may give.
use std::fmt::Debug;
use std::ops::Deref;
use std::sync::Arc;

use parking_lot::lock_api::RwLock;
use parking_lot::RawRwLock;
use vstd::prelude::*;

use self::guard::{
    ArcRwLockBellReadGuard, ArcRwLockBellWriteGuard, RwLockBellReadGuard, RwLockBellWriteGuard,
};
use self::hold::{
    get_mut, hold_read, hold_write, into_inner, is_locked, is_locked_exclusive, mapped_read_deref,
    mapped_write_deref, new_rwlock, read_deref, try_hold_read, try_hold_write, write_deref,
    MappedReadHold, MappedWriteHold, ReadHold, WriteHold,
};
use crate::bell::{trying, waiting};
use crate::callback::Callback;
use crate::inner::{dropped, put_down, Operation};
use crate::raw::RawRwLockBell;
use crate::state::LockState;
use crate::text::{debug_of, lock_text, print_lock};

pub mod guard;
pub mod hold;
pub mod laws;

verus! {

/// Whether `lock_api::RwLock::new` may make `lock` of `value`.
pub closed spec fn makes_lock<T>(value: T, lock: RwLock<RawRwLock, T>) -> bool {
    call_ensures(new_rwlock::<T>, (value,), lock)
}

/// Whether `lock_api::RwLock::into_inner` may find `value` in `lock`.
pub closed spec fn leaves_value<T>(lock: RwLock<RawRwLock, T>, value: T) -> bool {
    call_ensures(into_inner::<T>, (lock,), value)
}

/// Whether `lock_api::RwLock::get_mut` may lend `value` out of `lock`.
pub closed spec fn lends_value<T: ?Sized>(lock: &RwLock<RawRwLock, T>, value: &mut T) -> bool {
    exists|borrowed: &mut RwLock<RawRwLock, T>|
        &*borrowed == lock && #[trigger] call_ensures(get_mut::<T>, (borrowed,), value)
}

/// Whether `lock_api::RwLock::read` may give `held` of `lock`.
pub closed spec fn gives_read<'a, T: ?Sized>(
    lock: &'a RwLock<RawRwLock, T>,
    held: ReadHold<'a, T>,
) -> bool {
    call_ensures(hold_read::<T>, (lock,), held)
}

/// Whether `lock_api::RwLock::try_read` may answer `held` for `lock`.
pub closed spec fn answers_read<'a, T: ?Sized>(
    lock: &'a RwLock<RawRwLock, T>,
    held: Option<ReadHold<'a, T>>,
) -> bool {
    call_ensures(try_hold_read::<T>, (lock,), held)
}

/// Whether `lock_api::RwLock::write` may give `held` of `lock`.
pub closed spec fn gives_write<'a, T: ?Sized>(
    lock: &'a RwLock<RawRwLock, T>,
    held: WriteHold<'a, T>,
) -> bool {
    call_ensures(hold_write::<T>, (lock,), held)
}

/// Whether `lock_api::RwLock::try_write` may answer `held` for `lock`.
pub closed spec fn answers_write<'a, T: ?Sized>(
    lock: &'a RwLock<RawRwLock, T>,
    held: Option<WriteHold<'a, T>>,
) -> bool {
    call_ensures(try_hold_write::<T>, (lock,), held)
}

/// Whether `lock_api::RwLock::is_locked` may answer `locked` for `lock`.
pub closed spec fn tells_locked<T: ?Sized>(lock: &RwLock<RawRwLock, T>, locked: bool) -> bool {
    call_ensures(is_locked::<T>, (lock,), locked)
}

/// Whether `lock_api::RwLock::is_locked_exclusive` may answer `locked` for `lock`.
pub closed spec fn tells_locked_exclusive<T: ?Sized>(
    lock: &RwLock<RawRwLock, T>,
    locked: bool,
) -> bool {
    call_ensures(is_locked_exclusive::<T>, (lock,), locked)
}

/// What holds the lock, and gives access to a value of type `T`.
pub trait Held<T: ?Sized> {
    /// Whether this may be dereferenced to `value`.
    spec fn reads(&self, value: &T) -> bool;
}

/// Whether there is one value only that `hold` may be dereferenced to.
pub open spec fn single_valued<T: ?Sized, H: Held<T>>(hold: &H) -> bool {
    forall|a: &T, b: &T| #[trigger] hold.reads(a) && #[trigger] hold.reads(b) ==> a == b
}

/// The value that `hold` gives access to.
pub open spec fn value_of<T: ?Sized, H: Held<T>>(hold: &H) -> &T {
    choose|value: &T| hold.reads(value)
}

/// Whether `before` and `after` are guards of the same lock.
pub open spec fn same_lock<'a, T: ?Sized>(before: WriteHold<'a, T>, after: WriteHold<'a, T>) -> bool {
    forall|lock: &RwLock<RawRwLock, T>|
        {
            &&& #[trigger] gives_write(lock, before) == gives_write(lock, after)
            &&& answers_write(lock, Some(before)) == answers_write(lock, Some(after))
        }
}

impl<'a, T: ?Sized> Held<T> for ReadHold<'a, T> {
    closed spec fn reads(&self, value: &T) -> bool {
        call_ensures(read_deref::<T>, (self,), value)
    }
}

impl<'a, T: ?Sized> Held<T> for MappedReadHold<'a, T> {
    closed spec fn reads(&self, value: &T) -> bool {
        call_ensures(mapped_read_deref::<T>, (self,), value)
    }
}

impl<'a, T: ?Sized> Held<T> for WriteHold<'a, T> {
    closed spec fn reads(&self, value: &T) -> bool {
        call_ensures(write_deref::<T>, (self,), value)
    }
}

impl<'a, T: ?Sized> Held<T> for MappedWriteHold<'a, T> {
    closed spec fn reads(&self, value: &T) -> bool {
        call_ensures(mapped_write_deref::<T>, (self,), value)
    }
}

/// A reader-writer lock that fires queued callbacks when contention clears.
///
/// When [`try_write_or`](Self::try_write_or) cannot get the lock, its callback is
/// queued. All queued callbacks fire, oldest first and with the firing thread
/// holding no lock, when the next write guard or the last read guard is given
/// back.
///
/// Both ways of releasing take the queue while the lock is still held. Dropping
/// the lock, or calling [`into_inner`](Self::into_inner), discards whatever is
/// still queued without calling it.
#[verifier::reject_recursive_types(T)]
pub struct RwLockBell<T: ?Sized> {
    raw: RawRwLockBell<RwLock<RawRwLock, T>>,
}

impl<T> RwLockBell<T> {
    /// Creates a lock that protects `value`.
    pub fn new(value: T) -> (bell: Self)
        ensures
            makes_lock(value, *bell.lock()),
            bell.bell().is_new(),
        opens_invariants none
    {
        RwLockBell { raw: RawRwLockBell::new(new_rwlock(value)) }
    }

    /// Adds a bell to `lock`, which must be unlocked.
    pub fn from_lock(lock: RwLock<RawRwLock, T>) -> (bell: Self)
        ensures
            *bell.lock() == lock,
            bell.bell().is_new(),
        opens_invariants none
    {
        RwLockBell { raw: RawRwLockBell::new(lock) }
    }

    /// Consumes the lock and returns the protected value. Callbacks that are still
    /// queued are dropped without being called.
    pub fn into_inner(self) -> (value: T)
        ensures
            leaves_value(*self.lock(), value),
        opens_invariants none
    {
        into_inner(self.raw.into_raw())
    }
}

/// What may happen when the lock under the bell is acquired by the calls of
/// `parking_lot`.
impl<T: ?Sized> RwLockBell<T> {
    /// A reader is counted, and only then gets `held`, by `lock_api::RwLock::read`.
    pub closed spec fn counted_then_held<'a>(&'a self, held: ReadHold<'a, T>) -> bool {
        exists|op: Operation, waiting: &mut Operation|
            {
                &&& #[trigger] self.bell().reader_counted(op)
                &&& *waiting == op
                &&& #[trigger] call_ensures(
                    Operation::acquire_read::<T>,
                    (waiting, self.lock()),
                    held,
                )
            }
    }

    /// `lock_api::RwLock::try_read` answers `held` with the bookkeeping locked, and a
    /// reader is counted if that is the lock.
    pub closed spec fn tried_and_counted<'a>(&'a self, held: Option<ReadHold<'a, T>>) -> bool {
        self.bell().read_tried(self.lock(), held)
    }

    /// A write attempt passes the door, and only then `lock_api::RwLock::try_write`
    /// answers it with `held`.
    pub closed spec fn tried_past_the_door<'a>(&'a self, held: Option<WriteHold<'a, T>>) -> bool {
        self.bell().attempt_made(self.lock(), try_hold_write::<T>, held)
    }

    /// What a write attempt with a ready `callback` comes to: `try_write` answers
    /// `held`, and the callback is left exactly if that is not the lock.
    pub open spec fn settles_write_or<'a, C: FnOnce() + Send + 'static>(
        &'a self,
        callback: C,
        held: Option<WriteHold<'a, T>>,
    ) -> bool {
        &&& answers_write(self.lock(), held)
        &&& match held {
            Some(_) => self.bell().attempt_won(),
            None => self.bell().attempt_lost(Callback::of(callback)),
        }
    }

    /// What a write attempt whose callback `factory` builds comes to: `try_write`
    /// answers `held`, and a callback is built and left exactly if that is not the
    /// lock.
    pub open spec fn settles_write_or_else<'a, C, F>(
        &'a self,
        factory: F,
        held: Option<WriteHold<'a, T>>,
    ) -> bool where C: FnOnce() + Send + 'static, F: FnOnce() -> C {
        &&& answers_write(self.lock(), held)
        &&& match held {
            Some(_) => self.bell().attempt_won(),
            None => exists|callback: C| #[trigger]
                factory.ensures((), callback) && self.bell().attempt_lost(Callback::of(callback)),
        }
    }
}

impl<T: ?Sized> RwLockBell<T> {
    /// The lock under the bell.
    pub closed spec fn lock(&self) -> &RwLock<RawRwLock, T> {
        self.raw.lock()
    }

    /// The bell.
    pub closed spec fn bell(&self) -> &LockState {
        self.raw.bell()
    }

    /// Borrows the lock with its bell, for acquiring it in other ways.
    pub fn raw(&self) -> (raw: &RawRwLockBell<RwLock<RawRwLock, T>>)
        ensures
            raw.lock() == self.lock(),
            raw.bell() == self.bell(),
        opens_invariants none
    {
        &self.raw
    }

    /// Returns a mutable reference to the protected value. No locking is needed.
    pub fn get_mut(&mut self) -> (value: &mut T)
        ensures
            lends_value(old(self).lock(), value),
            final(self).lock() == old(self).lock(),
            final(self).bell() == old(self).bell(),
        opens_invariants none
    {
        get_mut(self.raw.raw_mut())
    }

    /// Locks for shared access, blocking until that is possible.
    pub fn read(&self) -> (guard: RwLockBellReadGuard<'_, T>)
        ensures
            guard.bell() == self.bell(),
            gives_read(self.lock(), guard.held()),
            self.counted_then_held(guard.held()),
        opens_invariants [waiting()]
    {
        let mut op = self.raw.state().enter_shared();
        let held = op.acquire_read(self.raw.raw());
        RwLockBellReadGuard::new(op, held, self.raw.state())
    }

    /// Locks for shared access if that is possible without blocking.
    pub fn try_read(&self) -> (guard: Option<RwLockBellReadGuard<'_, T>>)
        ensures
            match guard {
                Some(guard) => {
                    &&& guard.bell() == self.bell()
                    &&& answers_read(self.lock(), Some(guard.held()))
                    &&& self.tried_and_counted(Some(guard.held()))
                },
                None => {
                    &&& answers_read(self.lock(), None)
                    &&& self.tried_and_counted(None)
                },
            },
        opens_invariants [trying()]
    {
        match self.raw.state().try_read(self.raw.raw()) {
            Some((op, held)) => Some(RwLockBellReadGuard::new(op, held, self.raw.state())),
            None => None,
        }
    }

    /// Locks for exclusive access, blocking until that is possible.
    pub fn write(&self) -> (guard: RwLockBellWriteGuard<'_, T>)
        ensures
            guard.bell() == self.bell(),
            gives_write(self.lock(), guard.held()),
        opens_invariants none
    {
        let mut op = Operation::begin_exclusive();
        let held = op.acquire_write(self.raw.raw());
        RwLockBellWriteGuard::new(op, held, self.raw.state())
    }

    /// Locks for exclusive access if that is possible without blocking. Nothing is
    /// registered otherwise; see [`try_write_or`](Self::try_write_or) for that.
    pub fn try_write(&self) -> (guard: Option<RwLockBellWriteGuard<'_, T>>)
        ensures
            match guard {
                Some(guard) => {
                    &&& guard.bell() == self.bell()
                    &&& answers_write(self.lock(), Some(guard.held()))
                },
                None => answers_write(self.lock(), None),
            },
        opens_invariants none
    {
        let outcome = try_hold_write(self.raw.raw());
        match Operation::settle_exclusive(outcome) {
            Some((op, held)) => Some(RwLockBellWriteGuard::new(op, held, self.raw.state())),
            None => None,
        }
    }

    /// Locks for exclusive access, or queues `callback` if that is not possible
    /// without blocking.
    ///
    /// On success the callback is discarded. Otherwise it runs, with the firing
    /// thread holding no lock, after the next write guard or the last read guard
    /// is given back. By then somebody else may have the lock.
    ///
    /// This waits for a flush that is under way, so that the callback cannot land
    /// in a batch that has been taken. It never waits for the protected value.
    pub fn try_write_or<C: FnOnce() + Send + 'static>(&self, callback: C) -> (guard: Option<
        RwLockBellWriteGuard<'_, T>,
    >)
        requires
            answers_write(self.lock(), None) ==> callback.requires(()),
        ensures
            match guard {
                Some(guard) => {
                    &&& guard.bell() == self.bell()
                    &&& self.settles_write_or(callback, Some(guard.held()))
                    &&& self.tried_past_the_door(Some(guard.held()))
                },
                None => {
                    &&& self.settles_write_or(callback, None)
                    &&& self.tried_past_the_door(None)
                },
            },
    {
        match self.raw.try_lock_exclusive_or(try_hold_write, callback) {
            Ok((op, held)) => Some(RwLockBellWriteGuard::new(op, held, self.raw.state())),
            Err(_) => None,
        }
    }

    /// Like [`try_write_or`](Self::try_write_or), but builds the callback only if
    /// it is needed.
    ///
    /// `factory` runs while a concurrent release may be waiting for it, still
    /// holding the lock, so it must not touch this lock and must not block. The
    /// callback has no such restriction. If `factory` panics, nothing is queued and
    /// the bookkeeping stays consistent.
    pub fn try_write_or_else<C: FnOnce() + Send + 'static, F: FnOnce() -> C>(
        &self,
        factory: F,
    ) -> (guard: Option<RwLockBellWriteGuard<'_, T>>)
        requires
            answers_write(self.lock(), None) ==> {
                &&& factory.requires(())
                &&& forall|callback: C| #[trigger]
                    factory.ensures((), callback) ==> callback.requires(())
            },
        ensures
            match guard {
                Some(guard) => {
                    &&& guard.bell() == self.bell()
                    &&& self.settles_write_or_else(factory, Some(guard.held()))
                    &&& self.tried_past_the_door(Some(guard.held()))
                },
                None => {
                    &&& self.settles_write_or_else(factory, None)
                    &&& self.tried_past_the_door(None)
                    &&& self.bell().callback_built(factory)
                },
            },
    {
        match self.raw.try_lock_exclusive_or_else(try_hold_write, factory) {
            Ok((op, held)) => Some(RwLockBellWriteGuard::new(op, held, self.raw.state())),
            Err(_) => None,
        }
    }

    /// Locks for shared access through an [`Arc`], by `acquire`, which may block.
    ///
    /// The guard has no lifetime if what `acquire` returns has none.
    pub fn read_arc<'a, G>(
        self: &'a Arc<Self>,
        acquire: impl FnOnce(&'a RwLock<RawRwLock, T>) -> G,
    ) -> (guard: ArcRwLockBellReadGuard<T, G>)
        requires
            acquire.requires((self.lock(),)),
        ensures
            guard.lock() == *self,
            acquire.ensures((self.lock(),), guard.held()),
            self.bell().shared_acquired(self.lock(), acquire, guard.held()),
    {
        let (op, held) = self.raw.lock_shared(acquire);
        ArcRwLockBellReadGuard::new(op, held, Arc::clone(self))
    }

    /// Locks for shared access through an [`Arc`], by `attempt`, which must not block.
    pub fn try_read_arc<'a, G>(
        self: &'a Arc<Self>,
        attempt: impl FnOnce(&'a RwLock<RawRwLock, T>) -> Option<G>,
    ) -> (guard: Option<ArcRwLockBellReadGuard<T, G>>)
        requires
            attempt.requires((self.lock(),)),
        ensures
            match guard {
                Some(guard) => {
                    &&& guard.lock() == *self
                    &&& attempt.ensures((self.lock(),), Some(guard.held()))
                    &&& self.bell().reader_tried(self.lock(), attempt, Some(guard.held()))
                },
                None => {
                    &&& attempt.ensures((self.lock(),), None)
                    &&& self.bell().reader_tried(self.lock(), attempt, None::<G>)
                },
            },
    {
        match self.raw.try_lock_shared(attempt) {
            Some((op, held)) => Some(ArcRwLockBellReadGuard::new(op, held, Arc::clone(self))),
            None => None,
        }
    }

    /// Locks for exclusive access through an [`Arc`], by `acquire`, which may block.
    pub fn write_arc<'a, G>(
        self: &'a Arc<Self>,
        acquire: impl FnOnce(&'a RwLock<RawRwLock, T>) -> G,
    ) -> (guard: ArcRwLockBellWriteGuard<T, G>)
        requires
            acquire.requires((self.lock(),)),
        ensures
            guard.lock() == *self,
            acquire.ensures((self.lock(),), guard.held()),
    {
        let (op, held) = self.raw.lock_exclusive(acquire);
        ArcRwLockBellWriteGuard::new(op, held, Arc::clone(self))
    }

    /// Locks for exclusive access through an [`Arc`], by `attempt`, which should not
    /// block. Nothing is registered if that fails.
    pub fn try_write_arc<'a, G>(
        self: &'a Arc<Self>,
        attempt: impl FnOnce(&'a RwLock<RawRwLock, T>) -> Option<G>,
    ) -> (guard: Option<ArcRwLockBellWriteGuard<T, G>>)
        requires
            attempt.requires((self.lock(),)),
        ensures
            match guard {
                Some(guard) => {
                    &&& guard.lock() == *self
                    &&& attempt.ensures((self.lock(),), Some(guard.held()))
                },
                None => attempt.ensures((self.lock(),), None),
            },
    {
        match self.raw.try_lock_exclusive(attempt) {
            Some((op, held)) => Some(ArcRwLockBellWriteGuard::new(op, held, Arc::clone(self))),
            None => None,
        }
    }

    /// [`try_write_or`](Self::try_write_or) through an [`Arc`], by `attempt`.
    pub fn try_write_arc_or<'a, G, C: FnOnce() + Send + 'static>(
        self: &'a Arc<Self>,
        attempt: impl FnOnce(&'a RwLock<RawRwLock, T>) -> Option<G>,
        callback: C,
    ) -> (guard: Option<ArcRwLockBellWriteGuard<T, G>>)
        requires
            attempt.requires((self.lock(),)),
            attempt.ensures((self.lock(),), None::<G>) ==> callback.requires(()),
        ensures
            match guard {
                Some(guard) => {
                    &&& guard.lock() == *self
                    &&& self.bell().settles_or(self.lock(), attempt, callback, Some(guard.held()))
                },
                None => self.bell().settles_or(self.lock(), attempt, callback, None::<G>),
            },
    {
        match self.raw.try_lock_exclusive_or(attempt, callback) {
            Ok((op, held)) => Some(ArcRwLockBellWriteGuard::new(op, held, Arc::clone(self))),
            Err(_) => None,
        }
    }

    /// [`try_write_or_else`](Self::try_write_or_else) through an [`Arc`], by `attempt`.
    /// The same rules apply to `factory`.
    pub fn try_write_arc_or_else<'a, G, C: FnOnce() + Send + 'static, F: FnOnce() -> C>(
        self: &'a Arc<Self>,
        attempt: impl FnOnce(&'a RwLock<RawRwLock, T>) -> Option<G>,
        factory: F,
    ) -> (guard: Option<ArcRwLockBellWriteGuard<T, G>>)
        requires
            attempt.requires((self.lock(),)),
            attempt.ensures((self.lock(),), None::<G>) ==> {
                &&& factory.requires(())
                &&& forall|callback: C| #[trigger]
                    factory.ensures((), callback) ==> callback.requires(())
            },
        ensures
            match guard {
                Some(guard) => {
                    &&& guard.lock() == *self
                    &&& self.bell().settles_or_else(
                        self.lock(),
                        attempt,
                        factory,
                        Some(guard.held()),
                    )
                },
                None => {
                    &&& self.bell().settles_or_else(self.lock(), attempt, factory, None::<G>)
                    &&& self.bell().callback_built(factory)
                },
            },
    {
        match self.raw.try_lock_exclusive_or_else(attempt, factory) {
            Ok((op, held)) => Some(ArcRwLockBellWriteGuard::new(op, held, Arc::clone(self))),
            Err(_) => None,
        }
    }

    /// Whether the lock is held in any mode. Does not ring the bell.
    pub fn is_locked(&self) -> (locked: bool)
        ensures
            tells_locked(self.lock(), locked),
        opens_invariants none
    {
        is_locked(self.raw.raw())
    }

    /// Whether the lock is held exclusively. Does not ring the bell.
    pub fn is_locked_exclusive(&self) -> (locked: bool)
        ensures
            tells_locked_exclusive(self.lock(), locked),
        opens_invariants none
    {
        is_locked_exclusive(self.raw.raw())
    }

    /// Takes a shared lock that the bell does not know of, so that dropping it
    /// rings nothing.
    ///
    /// A write attempt that loses to it waits for the next guard to be given back.
    pub fn peek(&self) -> (peek: Option<Peek<'_, T>>)
        ensures
            match peek {
                Some(peek) => answers_read(self.lock(), Some(peek.held())),
                None => answers_read(self.lock(), None),
            },
        opens_invariants none
    {
        match try_hold_read(self.raw.raw()) {
            Some(held) => Some(Peek { held }),
            None => None,
        }
    }

    /// Prints the protected value if it can be read, and `<locked>` otherwise; `None` if
    /// printing the value fails. Never rings the bell.
    pub fn debug_text(&self) -> (text: Option<String>) where T: Debug
        ensures
            match text {
                Some(text) => prints_lock(self.lock(), Some(text@)),
                None => prints_lock(self.lock(), None),
            },
    {
        match self.peek() {
            Some(peek) => {
                let value = read_deref(&peek.held);
                let data = debug_of(value);
                assert(prints_value(value, data));
                assert(peek.held.reads(value));
                put_down(peek.held);
                match data {
                    Some(data) => Some(print_lock(Some(data.as_str()))),
                    None => None,
                }
            },
            None => Some(print_lock(None)),
        }
    }
}

/// Whether `{:?}` may print `value` as `data`, or fail.
pub closed spec fn prints_value<T: Debug + ?Sized>(value: &T, data: Option<String>) -> bool {
    call_ensures(debug_of::<T>, (value,), data)
}

/// Whether `text` is how `lock` may be printed: around what a shared lock reads, which
/// is let go again, or as locked if there is none to be had; or `None` if printing what
/// it reads fails.
pub open spec fn prints_lock<T: Debug + ?Sized>(
    lock: &RwLock<RawRwLock, T>,
    text: Option<Seq<char>>,
) -> bool {
    ||| answers_read(lock, None) && text == Some(lock_text("<locked>"@))
    ||| exists|held: ReadHold<'_, T>, value: &T, data: Option<String>|
        {
            &&& answers_read(lock, Some(held))
            &&& #[trigger] held.reads(value)
            &&& #[trigger] prints_value(value, data)
            &&& dropped(held)
            &&& match data {
                Some(data) => text == Some(lock_text(data@)),
                None => text is None,
            }
        }
}

/// A shared lock that the bell does not know of.
#[verifier::reject_recursive_types(T)]
pub struct Peek<'a, T: ?Sized> {
    held: ReadHold<'a, T>,
}

impl<'a, T: ?Sized> Peek<'a, T> {
    /// Nobody writes meanwhile.
    #[verifier::type_invariant]
    spec fn well_formed(self) -> bool {
        single_valued(&self.held)
    }

    /// What holds the lock.
    pub closed spec fn held(&self) -> ReadHold<'a, T> {
        self.held
    }

    /// The value that is seen.
    pub open spec fn value(&self) -> &T {
        value_of(&self.held())
    }
}

impl<'a, T: ?Sized> Deref for Peek<'a, T> {
    type Target = T;

    fn deref(&self) -> (value: &T)
        ensures
            value == self.value(),
            self.held().reads(value),
    {
        proof {
            use_type_invariant(self);
        }
        let value = read_deref(&self.held);
        assert(self.held().reads(value));
        value
    }
}

impl<T: Default> Default for RwLockBell<T> {
    fn default() -> (bell: Self)
        ensures
            exists|value: T| #[trigger]
                T::default.ensures((), value) && makes_lock(value, *bell.lock()),
            bell.bell().is_new(),
    {
        RwLockBell::new(T::default())
    }
}

impl<T> From<T> for RwLockBell<T> {
    fn from(value: T) -> (bell: Self)
        ensures
            makes_lock(value, *bell.lock()),
            bell.bell().is_new(),
    {
        RwLockBell::new(value)
    }
}

impl<T> vstd::std_specs::convert::FromSpecImpl<T> for RwLockBell<T> {
    open spec fn obeys_from_spec() -> bool {
        false
    }

    open spec fn from_spec(value: T) -> Self {
        arbitrary()
    }
}

} // verus!

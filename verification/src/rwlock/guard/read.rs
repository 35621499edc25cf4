//! Shared guards.
use std::ops::Deref;

use vstd::prelude::*;

use super::Unlocked;
use crate::callback::Callback;
use crate::rwlock::hold::{
    mapped_read_deref, mapped_read_map, mapped_read_try_map, mapped_read_try_map_or_err,
    read_deref, read_map, read_try_map, read_try_map_or_err, MappedReadHold, ReadHold,
};
use crate::inner::{Operation, Phase, Progress};
use crate::rwlock::{single_valued, value_of, Held};
use crate::state::{accepts_callable, LockState};

verus! {

/// A shared guard.
///
/// Giving it back with [`unlock`](Self::unlock) releases the shared lock and, if
/// it was the last one, flushes the callbacks that are queued.
#[must_use]
#[verifier::reject_recursive_types(T)]
pub struct RwLockBellReadGuard<'a, T: ?Sized> {
    op: Operation,
    held: ReadHold<'a, T>,
    state: &'a LockState,
}

impl<'a, T: ?Sized> RwLockBellReadGuard<'a, T> {
    /// The operation of the guard holds the lock, which nobody else writes meanwhile.
    #[verifier::type_invariant]
    spec fn well_formed(self) -> bool {
        &&& self.op@ == Progress::at(Phase::HoldsShared)
        &&& single_valued(&self.held)
    }

    /// The bell that giving the guard back rings.
    pub closed spec fn bell(&self) -> &LockState {
        self.state
    }

    /// What holds the lock.
    pub closed spec fn held(&self) -> ReadHold<'a, T> {
        self.held
    }

    /// The value that is guarded.
    pub open spec fn value(&self) -> &T {
        value_of(&self.held())
    }

    /// Makes a guard of an operation that holds the lock.
    pub(crate) fn new(op: Operation, held: ReadHold<'a, T>, state: &'a LockState) -> (guard: Self)
        requires
            op@ == Progress::at(Phase::HoldsShared),
            single_valued(&held),
        ensures
            guard.bell() == state,
            guard.held() == held,
        opens_invariants none
    {
        RwLockBellReadGuard { op, held, state }
    }

    /// Gives the guard back: releases the lock and rings the bell.
    ///
    /// `ring` is handed every callback that is due, oldest first, after the lock
    /// has been released; it calls the callback and returns the panic that came
    /// out of it. The first panic is returned, unless the thread is `unwinding`.
    pub fn unlock<S, P>(
        s: Self,
        ringer: S,
        ring: impl Fn(S, Callback) -> (S, Option<P>),
        unwinding: bool,
    ) -> (unlocked: Unlocked<S, P>)
        requires
            accepts_callable(ring),
        ensures
            unlocked.rang(ring, ringer, unwinding),
            s.bell().shared_released(s.held(), unlocked.op@.batch),
    {
        proof {
            use_type_invariant(&s);
        }
        let mut op = s.op;
        let (ringer, panic) = s.state.unlock_shared(&mut op, s.held, ringer, ring, unwinding);
        Unlocked { op, ringer, panic }
    }

    /// Maps this guard to a component of its value.
    ///
    /// `f` must not panic, or the lock is released without the bell's knowing. An
    /// associated function, so that it cannot shadow a method of `T`.
    pub fn map<U: ?Sized, F: FnOnce(&T) -> &U>(s: Self, f: F) -> (mapped: MappedRwLockBellReadGuard<'a, U>)
        requires
            f.requires((s.value(),)),
        ensures
            mapped.bell() == s.bell(),
            f.ensures((s.value(),), mapped.value()),
    {
        proof {
            use_type_invariant(&s);
        }
        MappedRwLockBellReadGuard::new(s.op, read_map(s.held, f), s.state)
    }

    /// Maps this guard to a component of its value, or returns it unchanged if `f`
    /// finds none. `f` must not panic.
    pub fn try_map<U: ?Sized, F: FnOnce(&T) -> Option<&U>>(s: Self, f: F) -> (mapped: Result<
        MappedRwLockBellReadGuard<'a, U>,
        Self,
    >)
        requires
            f.requires((s.value(),)),
        ensures
            match mapped {
                Ok(guard) => {
                    &&& guard.bell() == s.bell()
                    &&& f.ensures((s.value(),), Some(guard.value()))
                },
                Err(guard) => {
                    &&& guard.bell() == s.bell()
                    &&& guard.held() == s.held()
                    &&& f.ensures((s.value(),), None)
                },
            },
    {
        proof {
            use_type_invariant(&s);
        }
        match read_try_map(s.held, f) {
            Ok(held) => Ok(MappedRwLockBellReadGuard::new(s.op, held, s.state)),
            Err(held) => Err(RwLockBellReadGuard::new(s.op, held, s.state)),
        }
    }

    /// Maps this guard to a component of its value, or returns it unchanged with
    /// the error of `f`. `f` must not panic.
    pub fn try_map_or_err<U: ?Sized, F: FnOnce(&T) -> Result<&U, E>, E>(s: Self, f: F) -> (mapped:
        Result<MappedRwLockBellReadGuard<'a, U>, (Self, E)>)
        requires
            f.requires((s.value(),)),
        ensures
            match mapped {
                Ok(guard) => {
                    &&& guard.bell() == s.bell()
                    &&& f.ensures((s.value(),), Ok(guard.value()))
                },
                Err((guard, error)) => {
                    &&& guard.bell() == s.bell()
                    &&& guard.held() == s.held()
                    &&& f.ensures((s.value(),), Err(error))
                },
            },
    {
        proof {
            use_type_invariant(&s);
        }
        match read_try_map_or_err(s.held, f) {
            Ok(held) => Ok(MappedRwLockBellReadGuard::new(s.op, held, s.state)),
            Err((held, error)) => Err((RwLockBellReadGuard::new(s.op, held, s.state), error)),
        }
    }
}

impl<'a, T: ?Sized> Deref for RwLockBellReadGuard<'a, T> {
    type Target = T;

    fn deref(&self) -> (value: &T)
        ensures
            value == self.value(),
            self.held().reads(value),
    {
        proof {
            use_type_invariant(self);
        }
        read_deref(&self.held)
    }
}

/// A shared guard of a component of the protected value.
///
/// It is given back like an [`RwLockBellReadGuard`].
#[must_use]
#[verifier::reject_recursive_types(T)]
pub struct MappedRwLockBellReadGuard<'a, T: ?Sized> {
    op: Operation,
    held: MappedReadHold<'a, T>,
    state: &'a LockState,
}

impl<'a, T: ?Sized> MappedRwLockBellReadGuard<'a, T> {
    /// The operation of the guard holds the lock, which nobody else writes meanwhile.
    #[verifier::type_invariant]
    spec fn well_formed(self) -> bool {
        &&& self.op@ == Progress::at(Phase::HoldsShared)
        &&& single_valued(&self.held)
    }

    /// The bell that giving the guard back rings.
    pub closed spec fn bell(&self) -> &LockState {
        self.state
    }

    /// What holds the lock.
    pub closed spec fn held(&self) -> MappedReadHold<'a, T> {
        self.held
    }

    /// The value that is guarded.
    pub open spec fn value(&self) -> &T {
        value_of(&self.held())
    }

    /// Makes a guard of an operation that holds the lock.
    pub(crate) fn new(op: Operation, held: MappedReadHold<'a, T>, state: &'a LockState) -> (guard: Self)
        requires
            op@ == Progress::at(Phase::HoldsShared),
            single_valued(&held),
        ensures
            guard.bell() == state,
            guard.held() == held,
        opens_invariants none
    {
        MappedRwLockBellReadGuard { op, held, state }
    }

    /// Gives the guard back: releases the lock and rings the bell.
    ///
    /// `ring` is handed every callback that is due, oldest first, after the lock
    /// has been released; it calls the callback and returns the panic that came
    /// out of it. The first panic is returned, unless the thread is `unwinding`.
    pub fn unlock<S, P>(
        s: Self,
        ringer: S,
        ring: impl Fn(S, Callback) -> (S, Option<P>),
        unwinding: bool,
    ) -> (unlocked: Unlocked<S, P>)
        requires
            accepts_callable(ring),
        ensures
            unlocked.rang(ring, ringer, unwinding),
            s.bell().shared_released(s.held(), unlocked.op@.batch),
    {
        proof {
            use_type_invariant(&s);
        }
        let mut op = s.op;
        let (ringer, panic) = s.state.unlock_shared(&mut op, s.held, ringer, ring, unwinding);
        Unlocked { op, ringer, panic }
    }

    /// Maps this guard to a component of its value.
    ///
    /// `f` must not panic, or the lock is released without the bell's knowing. An
    /// associated function, so that it cannot shadow a method of `T`.
    pub fn map<U: ?Sized, F: FnOnce(&T) -> &U>(s: Self, f: F) -> (mapped: MappedRwLockBellReadGuard<'a, U>)
        requires
            f.requires((s.value(),)),
        ensures
            mapped.bell() == s.bell(),
            f.ensures((s.value(),), mapped.value()),
    {
        proof {
            use_type_invariant(&s);
        }
        MappedRwLockBellReadGuard::new(s.op, mapped_read_map(s.held, f), s.state)
    }

    /// Maps this guard to a component of its value, or returns it unchanged if `f`
    /// finds none. `f` must not panic.
    pub fn try_map<U: ?Sized, F: FnOnce(&T) -> Option<&U>>(s: Self, f: F) -> (mapped: Result<
        MappedRwLockBellReadGuard<'a, U>,
        Self,
    >)
        requires
            f.requires((s.value(),)),
        ensures
            match mapped {
                Ok(guard) => {
                    &&& guard.bell() == s.bell()
                    &&& f.ensures((s.value(),), Some(guard.value()))
                },
                Err(guard) => {
                    &&& guard.bell() == s.bell()
                    &&& guard.held() == s.held()
                    &&& f.ensures((s.value(),), None)
                },
            },
    {
        proof {
            use_type_invariant(&s);
        }
        match mapped_read_try_map(s.held, f) {
            Ok(held) => Ok(MappedRwLockBellReadGuard::new(s.op, held, s.state)),
            Err(held) => Err(MappedRwLockBellReadGuard::new(s.op, held, s.state)),
        }
    }

    /// Maps this guard to a component of its value, or returns it unchanged with
    /// the error of `f`. `f` must not panic.
    pub fn try_map_or_err<U: ?Sized, F: FnOnce(&T) -> Result<&U, E>, E>(s: Self, f: F) -> (mapped:
        Result<MappedRwLockBellReadGuard<'a, U>, (Self, E)>)
        requires
            f.requires((s.value(),)),
        ensures
            match mapped {
                Ok(guard) => {
                    &&& guard.bell() == s.bell()
                    &&& f.ensures((s.value(),), Ok(guard.value()))
                },
                Err((guard, error)) => {
                    &&& guard.bell() == s.bell()
                    &&& guard.held() == s.held()
                    &&& f.ensures((s.value(),), Err(error))
                },
            },
    {
        proof {
            use_type_invariant(&s);
        }
        match mapped_read_try_map_or_err(s.held, f) {
            Ok(held) => Ok(MappedRwLockBellReadGuard::new(s.op, held, s.state)),
            Err((held, error)) => Err((MappedRwLockBellReadGuard::new(s.op, held, s.state), error)),
        }
    }
}

impl<'a, T: ?Sized> Deref for MappedRwLockBellReadGuard<'a, T> {
    type Target = T;

    fn deref(&self) -> (value: &T)
        ensures
            value == self.value(),
            self.held().reads(value),
    {
        proof {
            use_type_invariant(self);
        }
        mapped_read_deref(&self.held)
    }
}

} // verus!

//! Exclusive guards.
use std::ops::{Deref, DerefMut};

use vstd::prelude::*;

use super::Unlocked;
use crate::callback::Callback;
use crate::rwlock::hold::{
    mapped_write_deref, mapped_write_deref_mut, mapped_write_map, mapped_write_try_map,
    mapped_write_try_map_or_err, write_deref,
    write_deref_mut, write_map, write_try_map, write_try_map_or_err, MappedWriteHold, WriteHold,
};
use crate::inner::{Operation, Phase, Progress};
use crate::rwlock::{same_lock, single_valued, value_of, Held};
use crate::state::{accepts_callable, LockState};

verus! {

/// An exclusive guard.
///
/// Giving it back with [`unlock`](Self::unlock) releases the lock and flushes the
/// callbacks that are queued.
#[must_use]
#[verifier::reject_recursive_types(T)]
pub struct RwLockBellWriteGuard<'a, T: ?Sized> {
    op: Operation,
    held: WriteHold<'a, T>,
    state: &'a LockState,
}

impl<'a, T: ?Sized> RwLockBellWriteGuard<'a, T> {
    /// The operation of the guard holds the lock, which nobody else writes meanwhile.
    #[verifier::type_invariant]
    spec fn well_formed(self) -> bool {
        &&& self.op@ == Progress::at(Phase::HoldsExclusive)
        &&& single_valued(&self.held)
    }

    /// The bell that giving the guard back rings.
    pub closed spec fn bell(&self) -> &LockState {
        self.state
    }

    /// What holds the lock.
    pub closed spec fn held(&self) -> WriteHold<'a, T> {
        self.held
    }

    /// The value that is guarded.
    pub open spec fn value(&self) -> &T {
        value_of(&self.held())
    }

    /// Makes a guard of an operation that holds the lock.
    pub(crate) fn new(op: Operation, held: WriteHold<'a, T>, state: &'a LockState) -> (guard: Self)
        requires
            op@ == Progress::at(Phase::HoldsExclusive),
            single_valued(&held),
        ensures
            guard.bell() == state,
            guard.held() == held,
        opens_invariants none
    {
        RwLockBellWriteGuard { op, held, state }
    }

    /// Gives the guard back: releases the lock and rings the bell.
    ///
    /// `ring` is handed every callback that is due, oldest first, after the lock
    /// has been released; it calls the callback and returns the panic that came
    /// out of it. The first panic is returned, unless the thread is `unwinding`.
    pub fn unlock<S, P>(
        s: Self,
        ringer: S,
        ring: impl Fn(S, Callback) -> (S, Option<P>),
        unwinding: bool,
    ) -> (unlocked: Unlocked<S, P>)
        requires
            accepts_callable(ring),
        ensures
            unlocked.rang(ring, ringer, unwinding),
            s.bell().exclusive_released(s.held(), unlocked.op@.batch),
    {
        proof {
            use_type_invariant(&s);
        }
        let mut op = s.op;
        let (ringer, panic) = s.state.unlock_exclusive(&mut op, s.held, ringer, ring, unwinding);
        Unlocked { op, ringer, panic }
    }

    /// Maps this guard to a component of its value.
    ///
    /// `f` must not panic, or the lock is released without the bell's knowing. An
    /// associated function, so that it cannot shadow a method of `T`.
    pub fn map<U: ?Sized, F: FnOnce(&mut T) -> &mut U>(s: Self, f: F) -> (mapped: MappedRwLockBellWriteGuard<'a, U>)
        requires
            forall|value: &mut T| &*value == s.value() ==> #[trigger] f.requires((value,)),
        ensures
            mapped.bell() == s.bell(),
            exists|value: &mut T, found: &mut U|
                {
                    &&& &*value == s.value()
                    &&& #[trigger] f.ensures((value,), found)
                    &&& &*found == mapped.value()
                },
    {
        proof {
            use_type_invariant(&s);
        }
        MappedRwLockBellWriteGuard::new(s.op, write_map(s.held, f), s.state)
    }

    /// Maps this guard to a component of its value, or returns it, with what `f` left
    /// in it, if `f` finds none. `f` must not panic.
    pub fn try_map<U: ?Sized, F: FnOnce(&mut T) -> Option<&mut U>>(s: Self, f: F) -> (mapped: Result<
        MappedRwLockBellWriteGuard<'a, U>,
        Self,
    >)
        requires
            forall|value: &mut T| &*value == s.value() ==> #[trigger] f.requires((value,)),
        ensures
            match mapped {
                Ok(guard) => {
                    &&& guard.bell() == s.bell()
                    &&& exists|value: &mut T, found: &mut U|
                        {
                            &&& &*value == s.value()
                            &&& #[trigger] f.ensures((value,), Some(found))
                            &&& &*found == guard.value()
                        }
                },
                Err(guard) => {
                    &&& guard.bell() == s.bell()
                    &&& same_lock(s.held(), guard.held())
                    &&& exists|value: &mut T|
                        {
                            &&& &*value == s.value()
                            &&& #[trigger] f.ensures((value,), None)
                            &&& &*final(value) == guard.value()
                        }
                },
            },
    {
        proof {
            use_type_invariant(&s);
        }
        match write_try_map(s.held, f) {
            Ok(held) => Ok(MappedRwLockBellWriteGuard::new(s.op, held, s.state)),
            Err(held) => Err(RwLockBellWriteGuard::new(s.op, held, s.state)),
        }
    }

    /// Maps this guard to a component of its value, or returns it, with what `f` left
    /// in it, and the error of `f`. `f` must not panic.
    pub fn try_map_or_err<U: ?Sized, F: FnOnce(&mut T) -> Result<&mut U, E>, E>(s: Self, f: F) -> (mapped:
        Result<MappedRwLockBellWriteGuard<'a, U>, (Self, E)>)
        requires
            forall|value: &mut T| &*value == s.value() ==> #[trigger] f.requires((value,)),
        ensures
            match mapped {
                Ok(guard) => {
                    &&& guard.bell() == s.bell()
                    &&& exists|value: &mut T, found: &mut U|
                        {
                            &&& &*value == s.value()
                            &&& #[trigger] f.ensures((value,), Ok(found))
                            &&& &*found == guard.value()
                        }
                },
                Err((guard, _)) => {
                    &&& guard.bell() == s.bell()
                    &&& same_lock(s.held(), guard.held())
                },
            },
            mapped matches Err((guard, error)) ==> exists|
                value: &mut T,
                answer: Result<&mut U, E>,
            |
                {
                    &&& &*value == s.value()
                    &&& #[trigger] f.ensures((value,), answer)
                    &&& answer == Err::<&mut U, E>(error)
                    &&& &*final(value) == guard.value()
                },
    {
        proof {
            use_type_invariant(&s);
        }
        match write_try_map_or_err(s.held, f) {
            Ok(held) => Ok(MappedRwLockBellWriteGuard::new(s.op, held, s.state)),
            Err((held, error)) => Err((RwLockBellWriteGuard::new(s.op, held, s.state), error)),
        }
    }
}

impl<'a, T: ?Sized> Deref for RwLockBellWriteGuard<'a, T> {
    type Target = T;

    fn deref(&self) -> (value: &T)
        ensures
            value == self.value(),
            self.held().reads(value),
    {
        proof {
            use_type_invariant(self);
        }
        write_deref(&self.held)
    }
}

impl<'a, T: ?Sized> DerefMut for RwLockBellWriteGuard<'a, T> {
    fn deref_mut(&mut self) -> (value: &mut T)
        ensures
            &*value == old(self).value(),
            &*final(value) == final(self).value(),
            same_lock(old(self).held(), final(self).held()),
            final(self).bell() == old(self).bell(),
    {
        proof {
            use_type_invariant(&*self);
        }
        write_deref_mut(&mut self.held)
    }
}

/// An exclusive guard of a component of the protected value.
///
/// It is given back like an [`RwLockBellWriteGuard`].
#[must_use]
#[verifier::reject_recursive_types(T)]
pub struct MappedRwLockBellWriteGuard<'a, T: ?Sized> {
    op: Operation,
    held: MappedWriteHold<'a, T>,
    state: &'a LockState,
}

impl<'a, T: ?Sized> MappedRwLockBellWriteGuard<'a, T> {
    /// The operation of the guard holds the lock, which nobody else writes meanwhile.
    #[verifier::type_invariant]
    spec fn well_formed(self) -> bool {
        &&& self.op@ == Progress::at(Phase::HoldsExclusive)
        &&& single_valued(&self.held)
    }

    /// The bell that giving the guard back rings.
    pub closed spec fn bell(&self) -> &LockState {
        self.state
    }

    /// What holds the lock.
    pub closed spec fn held(&self) -> MappedWriteHold<'a, T> {
        self.held
    }

    /// The value that is guarded.
    pub open spec fn value(&self) -> &T {
        value_of(&self.held())
    }

    /// Makes a guard of an operation that holds the lock.
    pub(crate) fn new(op: Operation, held: MappedWriteHold<'a, T>, state: &'a LockState) -> (guard: Self)
        requires
            op@ == Progress::at(Phase::HoldsExclusive),
            single_valued(&held),
        ensures
            guard.bell() == state,
            guard.held() == held,
        opens_invariants none
    {
        MappedRwLockBellWriteGuard { op, held, state }
    }

    /// Gives the guard back: releases the lock and rings the bell.
    ///
    /// `ring` is handed every callback that is due, oldest first, after the lock
    /// has been released; it calls the callback and returns the panic that came
    /// out of it. The first panic is returned, unless the thread is `unwinding`.
    pub fn unlock<S, P>(
        s: Self,
        ringer: S,
        ring: impl Fn(S, Callback) -> (S, Option<P>),
        unwinding: bool,
    ) -> (unlocked: Unlocked<S, P>)
        requires
            accepts_callable(ring),
        ensures
            unlocked.rang(ring, ringer, unwinding),
            s.bell().exclusive_released(s.held(), unlocked.op@.batch),
    {
        proof {
            use_type_invariant(&s);
        }
        let mut op = s.op;
        let (ringer, panic) = s.state.unlock_exclusive(&mut op, s.held, ringer, ring, unwinding);
        Unlocked { op, ringer, panic }
    }

    /// Maps this guard to a component of its value.
    ///
    /// `f` must not panic, or the lock is released without the bell's knowing. An
    /// associated function, so that it cannot shadow a method of `T`.
    pub fn map<U: ?Sized, F: FnOnce(&mut T) -> &mut U>(s: Self, f: F) -> (mapped: MappedRwLockBellWriteGuard<'a, U>)
        requires
            forall|value: &mut T| &*value == s.value() ==> #[trigger] f.requires((value,)),
        ensures
            mapped.bell() == s.bell(),
            exists|value: &mut T, found: &mut U|
                {
                    &&& &*value == s.value()
                    &&& #[trigger] f.ensures((value,), found)
                    &&& &*found == mapped.value()
                },
    {
        proof {
            use_type_invariant(&s);
        }
        MappedRwLockBellWriteGuard::new(s.op, mapped_write_map(s.held, f), s.state)
    }

    /// Maps this guard to a component of its value, or returns it, with what `f` left
    /// in it, if `f` finds none. `f` must not panic.
    pub fn try_map<U: ?Sized, F: FnOnce(&mut T) -> Option<&mut U>>(s: Self, f: F) -> (mapped: Result<
        MappedRwLockBellWriteGuard<'a, U>,
        Self,
    >)
        requires
            forall|value: &mut T| &*value == s.value() ==> #[trigger] f.requires((value,)),
        ensures
            match mapped {
                Ok(guard) => {
                    &&& guard.bell() == s.bell()
                    &&& exists|value: &mut T, found: &mut U|
                        {
                            &&& &*value == s.value()
                            &&& #[trigger] f.ensures((value,), Some(found))
                            &&& &*found == guard.value()
                        }
                },
                Err(guard) => {
                    &&& guard.bell() == s.bell()
                    &&& exists|value: &mut T|
                        {
                            &&& &*value == s.value()
                            &&& #[trigger] f.ensures((value,), None)
                            &&& &*final(value) == guard.value()
                        }
                },
            },
    {
        proof {
            use_type_invariant(&s);
        }
        match mapped_write_try_map(s.held, f) {
            Ok(held) => Ok(MappedRwLockBellWriteGuard::new(s.op, held, s.state)),
            Err(held) => Err(MappedRwLockBellWriteGuard::new(s.op, held, s.state)),
        }
    }

    /// Maps this guard to a component of its value, or returns it, with what `f` left
    /// in it, and the error of `f`. `f` must not panic.
    pub fn try_map_or_err<U: ?Sized, F: FnOnce(&mut T) -> Result<&mut U, E>, E>(s: Self, f: F) -> (mapped:
        Result<MappedRwLockBellWriteGuard<'a, U>, (Self, E)>)
        requires
            forall|value: &mut T| &*value == s.value() ==> #[trigger] f.requires((value,)),
        ensures
            match mapped {
                Ok(guard) => {
                    &&& guard.bell() == s.bell()
                    &&& exists|value: &mut T, found: &mut U|
                        {
                            &&& &*value == s.value()
                            &&& #[trigger] f.ensures((value,), Ok(found))
                            &&& &*found == guard.value()
                        }
                },
                Err((guard, _)) => guard.bell() == s.bell(),
            },
            mapped matches Err((guard, error)) ==> exists|
                value: &mut T,
                answer: Result<&mut U, E>,
            |
                {
                    &&& &*value == s.value()
                    &&& #[trigger] f.ensures((value,), answer)
                    &&& answer == Err::<&mut U, E>(error)
                    &&& &*final(value) == guard.value()
                },
    {
        proof {
            use_type_invariant(&s);
        }
        match mapped_write_try_map_or_err(s.held, f) {
            Ok(held) => Ok(MappedRwLockBellWriteGuard::new(s.op, held, s.state)),
            Err((held, error)) => Err((MappedRwLockBellWriteGuard::new(s.op, held, s.state), error)),
        }
    }
}

impl<'a, T: ?Sized> Deref for MappedRwLockBellWriteGuard<'a, T> {
    type Target = T;

    fn deref(&self) -> (value: &T)
        ensures
            value == self.value(),
            self.held().reads(value),
    {
        proof {
            use_type_invariant(self);
        }
        mapped_write_deref(&self.held)
    }
}

impl<'a, T: ?Sized> DerefMut for MappedRwLockBellWriteGuard<'a, T> {
    fn deref_mut(&mut self) -> (value: &mut T)
        ensures
            &*value == old(self).value(),
            &*final(value) == final(self).value(),
            final(self).bell() == old(self).bell(),
    {
        proof {
            use_type_invariant(&*self);
        }
        mapped_write_deref_mut(&mut self.held)
    }
}

} // verus!

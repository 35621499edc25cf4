//! The lock with the bell, whatever the lock is.
use vstd::prelude::*;

use crate::callback::Callback;
use crate::inner::{Operation, Phase, Progress};
use crate::state::{accepts_callable, drained, prints_state, LockState};
use crate::text::{print_raw, raw_text};

mod acquire;

pub use acquire::Entry;

verus! {

/// A reader-writer lock `R` plus the bell.
///
/// The bell does not know how `R` is locked: whoever acquires says how, by a
/// function that takes `&R` and returns the guard, and whoever releases hands
/// the guard back to be dropped.
///
/// # Requirements on `R`
///
/// - Acquiring and releasing must not unwind, or the bell's counts are left too
///   high: callbacks queue and never ring, or every later flush blocks forever.
/// - The attempt passed to [`try_lock_shared`](Self::try_lock_shared), and the
///   release of a shared lock, must not block and must not use this lock: both
///   happen with the bookkeeping locked.
pub struct RawRwLockBell<R: ?Sized> {
    state: LockState,
    raw: R,
}

impl<R> RawRwLockBell<R> {
    /// Adds a bell to `raw`, which must be unlocked.
    pub fn new(raw: R) -> (bell: Self)
        ensures
            *bell.lock() == raw,
            bell.bell().is_new(),
        opens_invariants none
    {
        RawRwLockBell { state: LockState::new(), raw }
    }

    /// Takes the bell off. Callbacks that are still queued are dropped uncalled.
    pub fn into_raw(self) -> (raw: R)
        ensures
            raw == *self.lock(),
        opens_invariants none
    {
        self.raw
    }
}

impl<R: Default> Default for RawRwLockBell<R> {
    fn default() -> (bell: Self)
        ensures
            R::default.ensures((), *bell.lock()),
            bell.bell().is_new(),
    {
        RawRwLockBell::new(R::default())
    }
}

impl<R: ?Sized> RawRwLockBell<R> {
    /// The lock itself.
    pub closed spec fn lock(&self) -> &R {
        &self.raw
    }

    /// The bookkeeping.
    pub closed spec fn bell(&self) -> &LockState {
        &self.state
    }

    /// Borrows the lock itself.
    pub fn raw(&self) -> (raw: &R)
        ensures
            raw == self.lock(),
        opens_invariants none
    {
        &self.raw
    }

    /// Borrows the lock itself, exclusively.
    pub fn raw_mut(&mut self) -> (raw: &mut R)
        ensures
            &*raw == old(self).lock(),
            &*final(raw) == final(self).lock(),
            final(self).bell() == old(self).bell(),
        opens_invariants none
    {
        &mut self.raw
    }

    /// Borrows the bookkeeping.
    pub fn state(&self) -> (state: &LockState)
        ensures
            state == self.bell(),
        opens_invariants none
    {
        &self.state
    }

    /// Releases the shared lock `held`, and flushes the queue if it was the last
    /// one; see [`LockState::unlock_shared`].
    pub fn unlock_shared<G, S, P>(
        &self,
        op: &mut Operation,
        held: G,
        ringer: S,
        ring: impl Fn(S, Callback) -> (S, Option<P>),
        unwinding: bool,
    ) -> (done: (S, Option<P>))
        requires
            old(op)@ == Progress::at(Phase::HoldsShared),
            accepts_callable(ring),
        ensures
            final(op)@.phase is Over,
            final(op)@.left is None,
            self.bell().shared_released(held, final(op)@.batch),
            drained(ring, final(op)@.batch, ringer, unwinding, done),
    {
        self.state.unlock_shared(op, held, ringer, ring, unwinding)
    }

    /// Releases the exclusive lock `held`, and flushes the queue; see
    /// [`LockState::unlock_exclusive`].
    pub fn unlock_exclusive<G, S, P>(
        &self,
        op: &mut Operation,
        held: G,
        ringer: S,
        ring: impl Fn(S, Callback) -> (S, Option<P>),
        unwinding: bool,
    ) -> (done: (S, Option<P>))
        requires
            old(op)@ == Progress::at(Phase::HoldsExclusive),
            accepts_callable(ring),
        ensures
            final(op)@.phase is Over,
            final(op)@.left is None,
            self.bell().exclusive_released(held, final(op)@.batch),
            drained(ring, final(op)@.batch, ringer, unwinding, done),
    {
        self.state.unlock_exclusive(op, held, ringer, ring, unwinding)
    }

    /// Takes a shared lock by `attempt` without touching the bell: it is not
    /// counted, and dropping the guard rings nothing.
    pub fn peek<'a, G>(&'a self, attempt: impl FnOnce(&'a R) -> Option<G>) -> (held: Option<G>)
        requires
            attempt.requires((self.lock(),)),
        ensures
            attempt.ensures((self.lock(),), held),
    {
        attempt(&self.raw)
    }

    /// Prints the lock, which `is_locked` tells to be locked or not, and its
    /// bookkeeping.
    pub fn debug_text<'a>(&'a self, is_locked: impl FnOnce(&'a R) -> bool) -> (text: String)
        requires
            is_locked.requires((self.lock(),)),
        ensures
            exists|locked: bool, state: Seq<char>|
                is_locked.ensures((self.lock(),), locked) && prints_state(self.bell(), state) && text@
                    == #[trigger] raw_text(locked, state),
    {
        let locked = is_locked(&self.raw);
        let state = self.state.debug_text();
        print_raw(locked, state.as_str())
    }
}

} // verus!

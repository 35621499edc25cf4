//! The critical sections of a [`LockState`]. Nothing else locks its mutex.
use parking_lot::lock_api::RwLock;
use parking_lot::RawRwLock;
use vstd::prelude::*;

use super::{watched, LockState};
use crate::bell::{flushing, leaving, passing, reopening, taking, trying, waiting, BellView};
use crate::callback::{all_callable, Callback};
use crate::inner::{
    acquired_by, attempted_by, given_back, prints_bell, queue, unlocked, LockStateInner, Operation,
    Phase, Progress,
};
use crate::pairing::{can_be_acquired, can_be_ended, lemma_can_be_acquired, lemma_can_be_ended};
use crate::raw::Entry;
use crate::rwlock::hold::{try_hold_read, ReadHold};
use crate::sync::{
    guarded, lock_state, new_condvar, new_mutex, try_lock_state, wait_locking_zero,
    wait_not_draining, StateGuard,
};

verus! {

/// What it takes to lock the mutex of the bookkeeping. Only this file makes one.
pub struct Key {
    unit: (),
}

impl Key {
    fn new() -> (key: Self)
        ensures
            key == (Key { unit: () }),
        opens_invariants none
        no_unwind
    {
        Key { unit: () }
    }
}

/// What may happen in the critical sections of a [`LockState`]: each of these says
/// that a method of [`LockStateInner`], which has the exact contract, is applied to
/// the bookkeeping behind the mutex.
impl LockState {
    /// Locking the mutex may give `guard`, and that `inner`, until it is dropped.
    spec fn locks_by(&self, guard: StateGuard<'_>, inner: &mut LockStateInner) -> bool {
        exists|borrowed: &mut StateGuard<'_>|
            {
                &&& call_ensures(lock_state, (self, Key { unit: () }), guard)
                &&& *borrowed == guard
                &&& #[trigger] call_ensures(guarded, (borrowed,), inner)
                &&& unlocked(guard)
            }
    }

    /// Locking the mutex may give `inner`, until it is unlocked again.
    spec fn locks(&self, inner: &mut LockStateInner) -> bool {
        exists|guard: &mut StateGuard<'_>|
            {
                &&& call_ensures(lock_state, (self, Key { unit: () }), *guard)
                &&& #[trigger] call_ensures(guarded, (guard,), inner)
                &&& unlocked(*guard)
            }
    }

    /// Locking the mutex and waiting until every write attempt is resolved may give
    /// `inner`.
    spec fn locks_resolved(&self, inner: &mut LockStateInner) -> bool {
        exists|guard: &mut StateGuard<'_>|
            {
                &&& call_ensures(lock_state, (self, Key { unit: () }), *guard)
                &&& #[trigger] call_ensures(wait_locking_zero, (guard,), inner)
                &&& unlocked(*guard)
            }
    }

    /// Locking the mutex and waiting until no flush is under way may give `inner`.
    spec fn locks_open(&self, inner: &mut LockStateInner) -> bool {
        exists|guard: &mut StateGuard<'_>|
            {
                &&& call_ensures(lock_state, (self, Key { unit: () }), *guard)
                &&& #[trigger] call_ensures(wait_not_draining, (guard,), inner)
                &&& unlocked(*guard)
            }
    }

    /// The mutex is new, and protects bookkeeping that is quiet.
    pub closed spec fn is_new(&self) -> bool {
        exists|inner: LockStateInner|
            inner@ == BellView::<Callback>::quiet() && #[trigger] call_ensures(
                new_mutex,
                (inner,),
                self.inner,
            )
    }

    /// The bookkeeping is looked at: it is as `found`, or its mutex is not free.
    pub closed spec fn probed(&self, found: Option<BellView<Callback>>) -> bool {
        exists|probe: Option<StateGuard<'_>>| #[trigger]
            call_ensures(try_lock_state, (self, Key { unit: () }), probe) && match probe {
                Some(held) => exists|guard: &mut StateGuard<'_>, inner: &mut LockStateInner|
                    {
                        &&& *guard == held
                        &&& #[trigger] call_ensures(guarded, (guard,), inner)
                        &&& found == Some(inner@)
                        &&& unlocked(held)
                    },
                None => found is None,
            }
    }

    /// A reader is counted, before it waits for the lock.
    pub closed spec fn reader_counted(&self, op: Operation) -> bool {
        exists|inner: &mut LockStateInner|
            self.locks(inner) && #[trigger] call_ensures(
                LockStateInner::count_reader,
                (inner, Key { unit: () }),
                op,
            )
    }

    /// `attempt`, made with the bookkeeping locked, answers `outcome` for `raw`, and a
    /// reader is counted if that is the lock.
    pub closed spec fn reader_tried<'a, R: ?Sized, G, F: FnOnce(&'a R) -> Option<G>>(
        &self,
        raw: &'a R,
        attempt: F,
        outcome: Option<G>,
    ) -> bool {
        exists|
            guard: StateGuard<'_>,
            inner: &mut LockStateInner,
            held: Option<(Operation, G)>,
        |
            {
                &&& self.locks_by(guard, inner)
                &&& #[trigger] call_ensures(
                    StateGuard::attempt::<R, G, F>,
                    (&guard, raw, attempt),
                    outcome,
                )
                &&& #[trigger] call_ensures(
                    LockStateInner::count_holder::<G>,
                    (inner, outcome, Key { unit: () }),
                    held,
                )
            }
    }

    /// `lock_api::RwLock::try_read`, called with the bookkeeping locked, answers `outcome`
    /// for `lock`, and a reader is counted if that is the lock.
    pub closed spec fn read_tried<'a, T: ?Sized>(
        &self,
        lock: &'a RwLock<RawRwLock, T>,
        outcome: Option<ReadHold<'a, T>>,
    ) -> bool {
        exists|
            guard: StateGuard<'_>,
            inner: &mut LockStateInner,
            held: Option<(Operation, ReadHold<'a, T>)>,
        |
            {
                &&& self.locks_by(guard, inner)
                &&& #[trigger] call_ensures(StateGuard::try_read::<T>, (&guard, lock), outcome)
                &&& #[trigger] call_ensures(
                    LockStateInner::count_holder::<ReadHold<'a, T>>,
                    (inner, outcome, Key { unit: () }),
                    held,
                )
            }
    }

    /// A reader is taken out of the count, and has to flush.
    pub closed spec fn reader_flushes(&self) -> bool {
        exists|inner: &mut LockStateInner, op: &mut Operation|
            {
                &&& self.locks(inner)
                &&& inner@.last_reader_drains()
                &&& #[trigger] call_ensures(LockStateInner::leave_shared, (inner, op), true)
            }
    }

    /// A reader is taken out of the count and has nothing to flush, and gives `held`
    /// back in the same critical section.
    pub closed spec fn reader_leaves<G>(&self, held: G) -> bool {
        exists|
            guard: StateGuard<'_>,
            inner: &mut LockStateInner,
            counted: &mut Operation,
            leaving: &mut Operation,
        |
            {
                &&& self.locks_by(guard, inner)
                &&& !inner@.last_reader_drains()
                &&& #[trigger] call_ensures(LockStateInner::leave_shared, (inner, counted), false)
                &&& #[trigger] call_ensures(
                    Operation::give_back_locked::<G>,
                    (leaving, held, &guard),
                    (),
                )
            }
    }

    /// A writer begins to flush.
    pub closed spec fn flush_entered(&self) -> bool {
        exists|inner: &mut LockStateInner, op: &mut Operation|
            self.locks(inner) && #[trigger] call_ensures(
                LockStateInner::enter_drain,
                (inner, op),
                (),
            )
    }

    /// The queue, which is `batch`, is taken, with no write attempt unresolved.
    pub closed spec fn queue_taken(&self, batch: Seq<Callback>) -> bool {
        exists|inner: &mut LockStateInner, op: &mut Operation, callbacks: Option<Vec<Callback>>|
            self.locks_resolved(inner) && queue(callbacks) == batch && #[trigger] call_ensures(
                LockStateInner::take_queue,
                (inner, op),
                callbacks,
            )
    }

    /// A flush ends.
    pub closed spec fn flush_left(&self) -> bool {
        exists|inner: &mut LockStateInner, op: &mut Operation, reopened: bool|
            self.locks(inner) && #[trigger] call_ensures(
                LockStateInner::leave_drain,
                (inner, op, &self.not_draining),
                reopened,
            )
    }

    /// A reader leaves. If it has to flush, it takes `batch`, then gives `held` back,
    /// then reopens the door; otherwise it takes nothing, and gives `held` back at
    /// once.
    pub open spec fn shared_released<G>(&self, held: G, batch: Seq<Callback>) -> bool {
        ||| {
            &&& self.reader_flushes()
            &&& self.queue_taken(batch)
            &&& given_back(held, batch)
            &&& self.flush_left()
        }
        ||| self.reader_leaves(held) && batch == Seq::<Callback>::empty()
    }

    /// A writer leaves: it takes `batch`, then gives `held` back, then reopens the
    /// door.
    pub open spec fn exclusive_released<G>(&self, held: G, batch: Seq<Callback>) -> bool {
        &&& self.flush_entered()
        &&& self.queue_taken(batch)
        &&& given_back(held, batch)
        &&& self.flush_left()
    }

    /// A write attempt passes the door, with no flush under way.
    pub closed spec fn attempt_entered(&self, op: Operation) -> bool {
        exists|inner: &mut LockStateInner|
            self.locks_open(inner) && #[trigger] call_ensures(
                LockStateInner::count_attempt,
                (inner, Key { unit: () }),
                op,
            )
    }

    /// A write attempt is resolved, having got the lock.
    pub closed spec fn attempt_won(&self) -> bool {
        exists|inner: &mut LockStateInner, op: &mut Operation, resolved: bool|
            self.locks(inner) && #[trigger] call_ensures(
                LockStateInner::settle_win,
                (inner, op, &self.locking_zero),
                resolved,
            )
    }

    /// A write attempt is resolved, having left `callback` in the queue.
    pub closed spec fn attempt_lost(&self, callback: Callback) -> bool {
        exists|inner: &mut LockStateInner, op: &mut Operation, resolved: bool|
            self.locks(inner) && #[trigger] call_ensures(
                LockStateInner::settle_loss,
                (inner, op, callback, &self.locking_zero),
                resolved,
            )
    }

    /// A reader is counted, and only then gets `guard` of `raw`, by `acquire`.
    pub open spec fn shared_acquired<'a, R: ?Sized, G, F: FnOnce(&'a R) -> G>(
        &self,
        raw: &'a R,
        acquire: F,
        guard: G,
    ) -> bool {
        exists|op: Operation| #[trigger]
            self.reader_counted(op) && acquired_by(op, raw, acquire, guard)
    }

    /// A write attempt passes the door, and only then is `raw` tried, by `attempt`, with
    /// `outcome`.
    pub open spec fn attempt_made<'a, R: ?Sized, G, F: FnOnce(&'a R) -> Option<G>>(
        &self,
        raw: &'a R,
        attempt: F,
        outcome: Option<G>,
    ) -> bool {
        exists|op: Operation| #[trigger]
            self.attempt_entered(op) && attempted_by(op, raw, attempt, outcome)
    }

    /// What a write attempt with a ready `callback` comes to: `attempt` answers
    /// `outcome`, and the callback is left exactly if that is not the lock.
    pub open spec fn settles_or<'a, R: ?Sized, G, F, C>(
        &self,
        raw: &'a R,
        attempt: F,
        callback: C,
        outcome: Option<G>,
    ) -> bool where F: FnOnce(&'a R) -> Option<G>, C: FnOnce() + Send + 'static {
        &&& attempt.ensures((raw,), outcome)
        &&& self.attempt_made(raw, attempt, outcome)
        &&& match outcome {
            Some(_) => self.attempt_won(),
            None => self.attempt_lost(Callback::of(callback)),
        }
    }

    /// What a write attempt whose callback `factory` builds comes to: `attempt` answers
    /// `outcome`, and a callback is built and left exactly if that is not the lock.
    pub open spec fn settles_or_else<'a, R: ?Sized, G, F, C, B>(
        &self,
        raw: &'a R,
        attempt: F,
        factory: B,
        outcome: Option<G>,
    ) -> bool where
        F: FnOnce(&'a R) -> Option<G>,
        C: FnOnce() + Send + 'static,
        B: FnOnce() -> C,
     {
        &&& attempt.ensures((raw,), outcome)
        &&& self.attempt_made(raw, attempt, outcome)
        &&& match outcome {
            Some(_) => self.attempt_won(),
            None => exists|callback: C| #[trigger]
                factory.ensures((), callback) && self.attempt_lost(Callback::of(callback)),
        }
    }

    /// `factory`, watched for a panic, builds the callback that is left.
    pub open spec fn callback_built<C: FnOnce() + Send + 'static, B: FnOnce() -> C>(
        &self,
        factory: B,
    ) -> bool {
        exists|callback: C| #[trigger]
            watched(self, factory, callback) && self.attempt_lost(Callback::of(callback))
    }

    /// A write attempt is resolved, having left nothing.
    pub closed spec fn attempt_dropped(&self) -> bool {
        exists|inner: &mut LockStateInner, resolved: bool|
            self.locks(inner) && #[trigger] call_ensures(
                LockStateInner::decrement_locking,
                (inner, &self.locking_zero),
                resolved,
            )
    }
}

impl<'s> StateGuard<'s> {
    /// Tries to share `lock` by `lock_api::RwLock::try_read`, with the bookkeeping locked.
    pub(crate) fn try_read<'a, T: ?Sized>(&self, lock: &'a RwLock<RawRwLock, T>) -> (outcome: Option<
        ReadHold<'a, T>,
    >)
        ensures
            call_ensures(try_hold_read::<T>, (lock,), outcome),
        opens_invariants none
    {
        try_hold_read(lock)
    }

    /// Tries to get the lock, by `attempt`, with the bookkeeping locked.
    pub fn attempt<'a, R: ?Sized, G, F: FnOnce(&'a R) -> Option<G>>(
        &self,
        raw: &'a R,
        attempt: F,
    ) -> (outcome: Option<G>)
        requires
            attempt.requires((raw,)),
        ensures
            attempt.ensures((raw,), outcome),
    {
        attempt(raw)
    }
}

impl LockState {
    /// The state of an unused lock.
    pub fn new() -> (state: Self)
        ensures
            state.is_new(),
        opens_invariants none
    {
        let quiet = LockStateInner::new();
        let ghost first = quiet;
        let inner = new_mutex(quiet);
        let state = LockState { inner, locking_zero: new_condvar(), not_draining: new_condvar() };
        assert(call_ensures(new_mutex, (first,), state.inner));
        state
    }

    /// The counters of the bookkeeping, as in [`LockStateInner::counters`], or `None` if
    /// it is locked.
    pub fn probe(&self) -> (counters: Option<(u64, u64, u64)>)
        ensures
            match counters {
                Some(counters) => exists|found: BellView<Callback>|
                    {
                        &&& #[trigger] self.probed(Some(found))
                        &&& counters.0 == found.draining
                        &&& counters.1 == found.locking
                        &&& counters.2 == found.readers
                    },
                None => self.probed(None),
            },
        opens_invariants none
    {
        match try_lock_state(self, Key::new()) {
            Some(mut guard) => {
                let inner = guarded(&mut guard);
                let ghost found = inner@;
                let counters = inner.counters();
                guard.unlock();
                assert(self.probed(Some(found)));
                Some(counters)
            },
            None => {
                assert(self.probed(None));
                None
            },
        }
    }

    /// Prints the bookkeeping, or that it is locked.
    pub fn debug_text(&self) -> (text: String)
        ensures
            prints_state(self, text@),
    {
        match try_lock_state(self, Key::new()) {
            Some(mut guard) => {
                let inner = guarded(&mut guard);
                let ghost found = inner@;
                let text = inner.debug_text();
                guard.unlock();
                assert(self.probed(Some(found)));
                text
            },
            None => {
                assert(self.probed(None));
                "LockState { inner: \"<locked>\" }".to_string()
            },
        }
    }

    /// Counts a reader that is about to wait for the lock.
    ///
    /// Counting before acquiring leaves no window in which a reader holds the
    /// lock uncounted and another one mistakes itself for the last.
    pub fn enter_shared(&self) -> (op: Operation)
        ensures
            op@ == Progress::at(Phase::WaitsShared),
            self.reader_counted(op),
            can_be_ended(),
        opens_invariants [waiting()]
    {
        proof {
            lemma_can_be_ended();
        }
        let mut guard = lock_state(self, Key::new());
        let op = guarded(&mut guard).count_reader(Key::new());
        guard.unlock();
        op
    }

    /// Like [`enter_shared`](Self::enter_shared), for who acquires the lock.
    pub(crate) fn admit_reader(&self, entry: Entry) -> (op: Operation)
        ensures
            op@ == Progress::at(Phase::WaitsShared),
            self.reader_counted(op),
        opens_invariants [waiting()]
    {
        let mut guard = lock_state(self, Key::new());
        let op = guarded(&mut guard).count_reader(Key::new());
        guard.unlock();
        op
    }

    /// Tries to share `lock` by `lock_api::RwLock::try_read`, and counts a reader if that
    /// succeeded. Nothing else happens to the bookkeeping.
    pub(crate) fn try_read<'a, T: ?Sized>(&self, lock: &'a RwLock<RawRwLock, T>) -> (held: Option<
        (Operation, ReadHold<'a, T>),
    >)
        ensures
            match held {
                Some((op, held)) => {
                    &&& op@ == Progress::at(Phase::HoldsShared)
                    &&& call_ensures(try_hold_read::<T>, (lock,), Some(held))
                    &&& self.read_tried(lock, Some(held))
                },
                None => {
                    &&& call_ensures(try_hold_read::<T>, (lock,), None::<ReadHold<'a, T>>)
                    &&& self.read_tried(lock, None)
                },
            },
            can_be_ended(),
        opens_invariants [trying()]
    {
        proof {
            lemma_can_be_ended();
        }
        let mut guard = lock_state(self, Key::new());
        let outcome = guard.try_read(lock);
        let held = guarded(&mut guard).count_holder(outcome, Key::new());
        guard.unlock();
        held
    }

    /// Tries to share `raw` by `attempt`, and counts a reader if that succeeded.
    ///
    /// `attempt` happens under the mutex, so it must not block.
    pub fn try_shared<'a, R: ?Sized, G>(
        &self,
        raw: &'a R,
        attempt: impl FnOnce(&'a R) -> Option<G>,
    ) -> (held: Option<(Operation, G)>)
        requires
            attempt.requires((raw,)),
        ensures
            match held {
                Some((op, guard)) => {
                    &&& attempt.ensures((raw,), Some(guard))
                    &&& op@ == Progress::at(Phase::HoldsShared)
                    &&& self.reader_tried(raw, attempt, Some(guard))
                },
                None => {
                    &&& attempt.ensures((raw,), None)
                    &&& self.reader_tried(raw, attempt, None::<G>)
                },
            },
            can_be_ended(),
    {
        proof {
            lemma_can_be_ended();
        }
        let mut guard = lock_state(self, Key::new());
        let outcome = guard.attempt(raw, attempt);
        let held = guarded(&mut guard).count_holder(outcome, Key::new());
        guard.unlock();
        held
    }

    /// Like [`try_shared`](Self::try_shared), for who acquires the lock.
    pub(crate) fn try_admit_reader<'a, R: ?Sized, G>(
        &self,
        raw: &'a R,
        attempt: impl FnOnce(&'a R) -> Option<G>,
        entry: Entry,
    ) -> (held: Option<(Operation, G)>)
        requires
            attempt.requires((raw,)),
        ensures
            match held {
                Some((op, guard)) => {
                    &&& attempt.ensures((raw,), Some(guard))
                    &&& op@ == Progress::at(Phase::HoldsShared)
                    &&& self.reader_tried(raw, attempt, Some(guard))
                },
                None => {
                    &&& attempt.ensures((raw,), None)
                    &&& self.reader_tried(raw, attempt, None::<G>)
                },
            },
    {
        let mut guard = lock_state(self, Key::new());
        let outcome = guard.attempt(raw, attempt);
        let held = guarded(&mut guard).count_holder(outcome, Key::new());
        guard.unlock();
        held
    }

    /// Waits until no flush is under way and lets a write attempt through.
    pub fn enter_try(&self) -> (op: Operation)
        ensures
            op@ == Progress::at(Phase::Tries),
            self.attempt_entered(op),
            can_be_ended(),
        opens_invariants [passing()]
    {
        proof {
            lemma_can_be_ended();
        }
        let mut guard = lock_state(self, Key::new());
        let op = wait_not_draining(&mut guard).count_attempt(Key::new());
        guard.unlock();
        op
    }

    /// Like [`enter_try`](Self::enter_try), for who acquires the lock.
    pub(crate) fn admit_attempt(&self, entry: Entry) -> (op: Operation)
        ensures
            op@ == Progress::at(Phase::Tries),
            self.attempt_entered(op),
        opens_invariants [passing()]
    {
        let mut guard = lock_state(self, Key::new());
        let op = wait_not_draining(&mut guard).count_attempt(Key::new());
        guard.unlock();
        op
    }

    /// Resolves a write attempt that got the lock.
    pub fn settle_win(&self, op: &mut Operation)
        requires
            old(op)@.phase is Tries,
        ensures
            final(op)@ == old(op)@.to(Phase::HoldsExclusive),
            self.attempt_won(),
        opens_invariants none
    {
        let mut guard = lock_state(self, Key::new());
        guarded(&mut guard).settle_win(op, &self.locking_zero);
        guard.unlock();
    }

    /// Resolves a write attempt that did not get the lock, queueing `callback`.
    pub fn settle_loss(&self, op: &mut Operation, callback: Callback)
        requires
            old(op)@.phase is Tries,
            callback.callable(),
        ensures
            final(op)@ == (Progress { phase: Phase::Over, left: Some(callback), ..old(op)@ }),
            self.attempt_lost(callback),
    {
        let mut guard = lock_state(self, Key::new());
        guarded(&mut guard).settle_loss(op, callback, &self.locking_zero);
        guard.unlock();
    }

    /// Resolves a write attempt that did not get the lock and has no callback.
    pub fn decrement_locking(&self)
        ensures
            self.attempt_dropped(),
            can_be_acquired(),
        opens_invariants none
        no_unwind
    {
        proof {
            lemma_can_be_acquired();
        }
        let mut guard = lock_state(self, Key::new());
        guarded(&mut guard).decrement_locking(&self.locking_zero);
        guard.unlock();
    }
}

impl LockState {
    /// Takes the reader `op` out of the count and gives `held` back; or, if it has to
    /// flush, takes the queue, and returns it with `held`, which is still held.
    ///
    /// That is all that happens to the bookkeeping: what is opened leaves room for a
    /// reader to leave and for the queue to be taken, and `op` can do each once.
    pub(super) fn leave<G>(&self, op: &mut Operation, held: G) -> (kept: Option<
        (G, Option<Vec<Callback>>),
    >)
        requires
            old(op)@.phase is HoldsShared,
        ensures
            match kept {
                Some((same, callbacks)) => {
                    &&& same == held
                    &&& self.reader_flushes()
                    &&& self.queue_taken(queue(callbacks))
                    &&& all_callable(queue(callbacks))
                    &&& final(op)@ == (Progress {
                        phase: Phase::Carries,
                        batch: queue(callbacks),
                        ..old(op)@
                    })
                },
                None => {
                    &&& self.reader_leaves(held)
                    &&& final(op)@ == old(op)@.to(Phase::Over)
                },
            },
        opens_invariants [leaving(), taking()]
    {
        let mut guard = lock_state(self, Key::new());
        if guarded(&mut guard).leave_shared(op) {
            let callbacks = wait_locking_zero(&mut guard).take_queue(op);
            op.unguard(guard);
            Some((held, callbacks))
        } else {
            // Released under the state mutex: a write attempt that loses to
            // this reader in between would queue with nobody left to ring it.
            op.give_back_locked(held, &guard);
            guard.unlock();
            None
        }
    }

    /// Begins the flush of the writer `op`, and takes the queue.
    pub(super) fn flush(&self, op: &mut Operation) -> (callbacks: Option<Vec<Callback>>)
        requires
            old(op)@.phase is HoldsExclusive,
        ensures
            self.flush_entered(),
            self.queue_taken(queue(callbacks)),
            all_callable(queue(callbacks)),
            final(op)@ == (Progress {
                phase: Phase::Carries,
                batch: queue(callbacks),
                ..old(op)@
            }),
        opens_invariants [flushing(), taking()]
    {
        let mut guard = lock_state(self, Key::new());
        guarded(&mut guard).enter_drain(op);
        let callbacks = wait_locking_zero(&mut guard).take_queue(op);
        op.unguard(guard);
        callbacks
    }

    /// Ends the flush of `op`, and reopens the door if it was the last one.
    pub(super) fn reopen(&self, op: &mut Operation)
        requires
            old(op)@.phase is Released,
        ensures
            self.flush_left(),
            final(op)@ == old(op)@.to(Phase::Rings),
        opens_invariants [reopening()]
    {
        let mut guard = lock_state(self, Key::new());
        guarded(&mut guard).leave_drain(op, &self.not_draining);
        op.unguard(guard);
    }
}

/// Whether `text` is how the bookkeeping of `state` is printed: as it is found, or
/// as locked if its mutex is not free.
pub open spec fn prints_state(state: &LockState, text: Seq<char>) -> bool {
    exists|found: Option<BellView<Callback>>| #[trigger]
        state.probed(found) && match found {
            Some(bell) => prints_bell(bell, text),
            None => text == "LockState { inner: \"<locked>\" }"@,
        }
}

} // verus!

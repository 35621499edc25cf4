//! The ways to acquire a lock with a bell. What they begin is begun here only.
use vstd::prelude::*;

use super::RawRwLockBell;
use crate::callback::Callback;
use crate::inner::{Operation, Phase, Progress};
use crate::pairing::{lemma_owned_can_be_ended, owned_can_be_ended};
use crate::state::catch_panic;

verus! {

/// What it takes to begin an operation that acquires a lock. Only this file makes one.
pub struct Entry {
    unit: (),
}

impl Entry {
    fn new() -> (entry: Self)
        opens_invariants none
        no_unwind
    {
        Entry { unit: () }
    }
}

impl<R: ?Sized> RawRwLockBell<R> {
    /// Acquires the shared lock by `acquire`, which may block.
    pub fn lock_shared<'a, G>(&'a self, acquire: impl FnOnce(&'a R) -> G) -> (held: (Operation, G))
        requires
            acquire.requires((self.lock(),)),
        ensures
            held.0@ == Progress::at(Phase::HoldsShared),
            self.bell().shared_acquired(self.lock(), acquire, held.1),
            acquire.ensures((self.lock(),), held.1),
            owned_can_be_ended(),
    {
        proof {
            lemma_owned_can_be_ended();
        }
        let mut op = self.state.admit_reader(Entry::new());
        let guard = op.acquire(&self.raw, acquire);
        (op, guard)
    }

    /// Acquires the shared lock by `attempt`, which must not block: it happens
    /// under the mutex of the bookkeeping, so the reader is counted as it
    /// acquires.
    pub fn try_lock_shared<'a, G>(
        &'a self,
        attempt: impl FnOnce(&'a R) -> Option<G>,
    ) -> (held: Option<(Operation, G)>)
        requires
            attempt.requires((self.lock(),)),
        ensures
            match held {
                Some((op, guard)) => {
                    &&& attempt.ensures((self.lock(),), Some(guard))
                    &&& op@ == Progress::at(Phase::HoldsShared)
                    &&& self.bell().reader_tried(self.lock(), attempt, Some(guard))
                },
                None => {
                    &&& attempt.ensures((self.lock(),), None)
                    &&& self.bell().reader_tried(self.lock(), attempt, None::<G>)
                },
            },
            owned_can_be_ended(),
    {
        proof {
            lemma_owned_can_be_ended();
        }
        self.state.try_admit_reader(&self.raw, attempt, Entry::new())
    }

    /// Acquires the exclusive lock by `acquire`, which may block.
    pub fn lock_exclusive<'a, G>(&'a self, acquire: impl FnOnce(&'a R) -> G) -> (held: (
        Operation,
        G,
    ))
        requires
            acquire.requires((self.lock(),)),
        ensures
            held.0@ == Progress::at(Phase::HoldsExclusive),
            acquire.ensures((self.lock(),), held.1),
            owned_can_be_ended(),
    {
        proof {
            lemma_owned_can_be_ended();
        }
        let mut op = Operation::begin_writer(Entry::new());
        let guard = op.acquire(&self.raw, acquire);
        (op, guard)
    }

    /// Acquires the exclusive lock by `attempt`, which should not block. Nothing
    /// is registered if that fails.
    pub fn try_lock_exclusive<'a, G>(
        &'a self,
        attempt: impl FnOnce(&'a R) -> Option<G>,
    ) -> (held: Option<(Operation, G)>)
        requires
            attempt.requires((self.lock(),)),
        ensures
            match held {
                Some((op, guard)) => {
                    &&& attempt.ensures((self.lock(),), Some(guard))
                    &&& op@ == Progress::at(Phase::HoldsExclusive)
                },
                None => attempt.ensures((self.lock(),), None),
            },
            owned_can_be_ended(),
    {
        proof {
            lemma_owned_can_be_ended();
        }
        let outcome = attempt(&self.raw);
        Operation::settle_writer(outcome, Entry::new())
    }

    /// Acquires the exclusive lock by `attempt`, or queues `callback` if that
    /// fails: then the operation is over, having left the callback.
    ///
    /// On success the callback is discarded. This waits for a flush that is under
    /// way, but never for the lock itself, and no code of the caller's runs while
    /// a release waits for the attempt to be resolved.
    pub fn try_lock_exclusive_or<'a, G, C: FnOnce() + Send + 'static>(
        &'a self,
        attempt: impl FnOnce(&'a R) -> Option<G>,
        callback: C,
    ) -> (held: Result<(Operation, G), Operation>)
        requires
            attempt.requires((self.lock(),)),
            attempt.ensures((self.lock(),), None::<G>) ==> callback.requires(()),
        ensures
            match held {
                Ok((op, guard)) => {
                    &&& op@ == Progress::at(Phase::HoldsExclusive)
                    &&& self.bell().settles_or(self.lock(), attempt, callback, Some(guard))
                },
                Err(op) => {
                    &&& op@.phase is Over
                    &&& op@.left == Some(Callback::of(callback))
                    &&& self.bell().settles_or(self.lock(), attempt, callback, None::<G>)
                },
            },
            owned_can_be_ended(),
    {
        proof {
            lemma_owned_can_be_ended();
        }
        let mut op = self.state.admit_attempt(Entry::new());
        match op.attempt(&self.raw, attempt) {
            Some(guard) => {
                self.state.settle_win(&mut op);
                Ok((op, guard))
            },
            None => {
                // Boxed only here, so an uncontended call never allocates.
                self.state.settle_loss(&mut op, Callback::new(callback));
                Err(op)
            },
        }
    }

    /// Like [`try_lock_exclusive_or`](Self::try_lock_exclusive_or), but builds
    /// the callback only if it is needed.
    ///
    /// `factory` runs while a concurrent release may be waiting for it, so it
    /// must not touch this lock and must not block. If it panics, nothing is
    /// queued and the attempt is resolved all the same.
    pub fn try_lock_exclusive_or_else<'a, G, C: FnOnce() + Send + 'static>(
        &'a self,
        attempt: impl FnOnce(&'a R) -> Option<G>,
        factory: impl FnOnce() -> C,
    ) -> (held: Result<(Operation, G), Operation>)
        requires
            attempt.requires((self.lock(),)),
            attempt.ensures((self.lock(),), None::<G>) ==> {
                &&& factory.requires(())
                &&& forall|callback: C| #[trigger]
                    factory.ensures((), callback) ==> callback.requires(())
            },
        ensures
            match held {
                Ok((op, guard)) => {
                    &&& op@ == Progress::at(Phase::HoldsExclusive)
                    &&& self.bell().settles_or_else(self.lock(), attempt, factory, Some(guard))
                },
                Err(op) => {
                    &&& op@.phase is Over
                    &&& exists|callback: C| #[trigger]
                        factory.ensures((), callback) && op@.left == Some(Callback::of(callback))
                    &&& self.bell().settles_or_else(self.lock(), attempt, factory, None::<G>)
                    &&& self.bell().callback_built(factory)
                },
            },
            owned_can_be_ended(),
    {
        proof {
            lemma_owned_can_be_ended();
        }
        let mut op = self.state.admit_attempt(Entry::new());
        match op.attempt(&self.raw, attempt) {
            Some(guard) => {
                self.state.settle_win(&mut op);
                Ok((op, guard))
            },
            None => {
                let callback = catch_panic(factory, &self.state);
                self.state.settle_loss(&mut op, Callback::new(callback));
                Err(op)
            },
        }
    }
}

} // verus!

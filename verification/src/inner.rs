//! The bell's bookkeeping, one method per critical section, and the place of an
//! operation in the protocol.
use parking_lot::lock_api::RwLock;
use parking_lot::{Condvar, RawRwLock};
use vstd::prelude::*;

use crate::bell::{flushing, leaving, passing, reopening, taking, trying, waiting, BellView};
use crate::callback::{all_callable, Callback};
use crate::pairing::{
    attempts_ring, can_be_ended, can_be_settled, lemma_attempts_ring, lemma_can_be_ended,
    lemma_can_be_settled, lemma_writers_ring, writers_ring,
};
use crate::raw::Entry;
use crate::rwlock::hold::{hold_read, hold_write, ReadHold, WriteHold};
use crate::state::Key;
use crate::sync::{let_go, notify_all, unlock_state, StateGuard};
use crate::text::{print_inner, prints_inner};

verus! {

/// How far an operation on the lock has come.
pub enum Phase {
    /// Counted as a reader, and waiting for the lock.
    WaitsShared,
    /// Counted as a reader, and holding the lock.
    HoldsShared,
    /// Waiting for the lock as a writer.
    WaitsExclusive,
    /// Holding the lock as a writer.
    HoldsExclusive,
    /// Past the door with a write attempt that is not resolved yet.
    Tries,
    /// Flushing, with the lock still held and the queue not taken yet.
    Flushes,
    /// Flushing, with the lock still held, the queue taken and the bookkeeping still
    /// locked.
    Took,
    /// Flushing, with the lock still held and the bookkeeping unlocked.
    Carries,
    /// No longer counted and not flushing, with the lock still held.
    Leaves,
    /// Flushing, with the lock given back and the door still closed.
    Released,
    /// No longer flushing, with the bookkeeping still locked.
    Reopened,
    /// Running callbacks, with the door open as far as this flush goes and the
    /// bookkeeping unlocked.
    Rings,
    /// Over.
    Over,
}

impl Phase {
    /// Whether an operation in this phase can be in `next` after one step.
    pub open spec fn leads_to(self, next: Phase) -> bool {
        match self {
            Phase::WaitsShared => next is HoldsShared,
            Phase::HoldsShared => next is Flushes || next is Leaves,
            Phase::WaitsExclusive => next is HoldsExclusive,
            Phase::HoldsExclusive => next is Flushes,
            Phase::Tries => next is HoldsExclusive || next is Over,
            Phase::Flushes => next is Took,
            Phase::Took => next is Carries,
            Phase::Carries => next is Released,
            Phase::Leaves => next is Over,
            Phase::Released => next is Reopened,
            Phase::Reopened => next is Rings,
            Phase::Rings => next is Over,
            Phase::Over => false,
        }
    }
}

/// What an operation has done so far.
pub struct Progress {
    /// How far it has come.
    pub phase: Phase,
    /// The callbacks that it took from the queue.
    pub batch: Seq<Callback>,
    /// The callback that it left in the queue.
    pub left: Option<Callback>,
}

impl Progress {
    /// An operation that has just begun, in `phase`.
    pub open spec fn at(phase: Phase) -> Self {
        Progress { phase, batch: Seq::empty(), left: None }
    }

    /// The same operation, further on.
    pub open spec fn to(self, phase: Phase) -> Self {
        Progress { phase, ..self }
    }
}

/// An operation on the lock: acquiring it, and releasing it again.
///
/// It has no content at run time. For the proofs it carries its [`Progress`],
/// which nothing but the bookkeeping can change: whoever has an operation that is
/// in some phase has gone through the critical sections that lead there.
pub struct Operation {
    progress: Ghost<Progress>,
}

impl View for Operation {
    type V = Progress;

    closed spec fn view(&self) -> Progress {
        self.progress@
    }
}

impl Operation {
    /// A writer is about to wait for the lock. The bell does not count writers.
    pub fn begin_exclusive() -> (op: Self)
        ensures
            op@ == Progress::at(Phase::WaitsExclusive),
            can_be_ended(),
        opens_invariants none
    {
        proof {
            lemma_can_be_ended();
        }
        Operation { progress: Ghost(Progress::at(Phase::WaitsExclusive)) }
    }

    /// A writer holds the lock if its attempt, which did not wait, got it.
    pub fn settle_exclusive<G>(attempt: Option<G>) -> (held: Option<(Self, G)>)
        ensures
            held is Some <==> attempt is Some,
            held matches Some((op, guard)) ==> {
                &&& op@ == Progress::at(Phase::HoldsExclusive)
                &&& Some(guard) == attempt
            },
            can_be_ended(),
        opens_invariants none
    {
        proof {
            lemma_can_be_ended();
        }
        match attempt {
            Some(guard) => {
                let op = Operation { progress: Ghost(Progress::at(Phase::HoldsExclusive)) };
                Some((op, guard))
            },
            None => None,
        }
    }

    /// Like [`begin_exclusive`](Self::begin_exclusive), for who acquires a lock.
    pub(crate) fn begin_writer(entry: Entry) -> (op: Self)
        ensures
            op@ == Progress::at(Phase::WaitsExclusive),
        opens_invariants none
    {
        Operation { progress: Ghost(Progress::at(Phase::WaitsExclusive)) }
    }

    /// Like [`settle_exclusive`](Self::settle_exclusive), for who acquires a lock.
    pub(crate) fn settle_writer<G>(attempt: Option<G>, entry: Entry) -> (held: Option<(Self, G)>)
        ensures
            held is Some <==> attempt is Some,
            held matches Some((op, guard)) ==> {
                &&& op@ == Progress::at(Phase::HoldsExclusive)
                &&& Some(guard) == attempt
            },
        opens_invariants none
    {
        match attempt {
            Some(guard) => {
                let op = Operation { progress: Ghost(Progress::at(Phase::HoldsExclusive)) };
                Some((op, guard))
            },
            None => None,
        }
    }

    /// A waiting operation gets the lock, by `acquire`.
    pub fn acquire<'a, R: ?Sized, G, F: FnOnce(&'a R) -> G>(
        &mut self,
        raw: &'a R,
        acquire: F,
    ) -> (guard: G)
        requires
            old(self)@.phase is WaitsShared || old(self)@.phase is WaitsExclusive,
            acquire.requires((raw,)),
        ensures
            acquire.ensures((raw,), guard),
            final(self)@ == old(self)@.to(
                if old(self)@.phase is WaitsShared {
                    Phase::HoldsShared
                } else {
                    Phase::HoldsExclusive
                },
            ),
    {
        let guard = acquire(raw);
        let ghost next = if self@.phase is WaitsShared {
            Phase::HoldsShared
        } else {
            Phase::HoldsExclusive
        };
        self.progress = Ghost(self@.to(next));
        guard
    }

    /// A waiting reader gets `lock`, by `lock_api::RwLock::read`. Nothing else happens
    /// to the bookkeeping.
    pub(crate) fn acquire_read<'a, T: ?Sized>(&mut self, lock: &'a RwLock<RawRwLock, T>) -> (held:
        ReadHold<'a, T>)
        requires
            old(self)@.phase is WaitsShared,
        ensures
            call_ensures(hold_read::<T>, (lock,), held),
            final(self)@ == old(self)@.to(Phase::HoldsShared),
        opens_invariants none
    {
        let held = hold_read(lock);
        self.progress = Ghost(self@.to(Phase::HoldsShared));
        held
    }

    /// A waiting writer gets `lock`, by `lock_api::RwLock::write`. Nothing else happens
    /// to the bookkeeping.
    pub(crate) fn acquire_write<'a, T: ?Sized>(&mut self, lock: &'a RwLock<RawRwLock, T>) -> (held:
        WriteHold<'a, T>)
        requires
            old(self)@.phase is WaitsExclusive,
        ensures
            call_ensures(hold_write::<T>, (lock,), held),
            final(self)@ == old(self)@.to(Phase::HoldsExclusive),
        opens_invariants none
    {
        let held = hold_write(lock);
        self.progress = Ghost(self@.to(Phase::HoldsExclusive));
        held
    }

    /// Tries to get the lock, by `attempt`, once past the door.
    pub fn attempt<'a, R: ?Sized, G, F: FnOnce(&'a R) -> Option<G>>(
        &self,
        raw: &'a R,
        attempt: F,
    ) -> (outcome: Option<G>)
        requires
            self@.phase is Tries,
            attempt.requires((raw,)),
        ensures
            attempt.ensures((raw,), outcome),
    {
        attempt(raw)
    }

    /// Unlocks the bookkeeping, which `guard` locks: before the lock is given back, and
    /// before callbacks run.
    pub fn unguard(&mut self, guard: StateGuard<'_>)
        requires
            old(self)@.phase is Took || old(self)@.phase is Reopened,
        ensures
            unlocked(guard),
            final(self)@ == old(self)@.to(
                if old(self)@.phase is Took {
                    Phase::Carries
                } else {
                    Phase::Rings
                },
            ),
        opens_invariants none
    {
        guard.unlock();
        let ghost next = if self@.phase is Took {
            Phase::Carries
        } else {
            Phase::Rings
        };
        self.progress = Ghost(self@.to(next));
    }

    /// Gives back the lock that `held` stands for, by dropping it, once the queue is
    /// taken and the bookkeeping unlocked.
    pub fn give_back<G>(&mut self, held: G)
        requires
            old(self)@.phase is Carries,
        ensures
            dropped(held),
            final(self)@ == old(self)@.to(Phase::Released),
        opens_invariants none
    {
        put_down(held);
        self.progress = Ghost(self@.to(Phase::Released));
    }

    /// Gives back the lock that `held` stands for, by dropping it, with nothing to
    /// flush. The bookkeeping is still locked by `guard`.
    pub fn give_back_locked<G>(&mut self, held: G, guard: &StateGuard<'_>)
        requires
            old(self)@.phase is Leaves,
        ensures
            dropped(held),
            final(self)@ == old(self)@.to(Phase::Over),
        opens_invariants none
    {
        put_down(held);
        self.progress = Ghost(self@.to(Phase::Over));
    }

    /// Hands `callback`, which this operation took, to `ring`.
    pub fn ring<S, P, F: Fn(S, Callback) -> (S, Option<P>)>(
        &self,
        ring: &F,
        ringer: S,
        callback: Callback,
    ) -> (rung: (S, Option<P>))
        requires
            self@.phase is Rings,
            self@.batch.contains(callback),
            ring.requires((ringer, callback)),
        ensures
            ring.ensures((ringer, callback), rung),
    {
        ring(ringer, callback)
    }

    /// A flush has run all its callbacks.
    pub fn finish(&mut self)
        requires
            old(self)@.phase is Rings,
        ensures
            final(self)@ == old(self)@.to(Phase::Over),
        opens_invariants none
    {
        self.progress = Ghost(self@.to(Phase::Over));
    }
}

/// Whether `acquire` may give `guard` of `raw` to `op`, which waits for it.
pub open spec fn acquired_by<'a, R: ?Sized, G, F: FnOnce(&'a R) -> G>(
    op: Operation,
    raw: &'a R,
    acquire: F,
    guard: G,
) -> bool {
    exists|waiting: &mut Operation|
        *waiting == op && #[trigger] call_ensures(
            Operation::acquire::<R, G, F>,
            (waiting, raw, acquire),
            guard,
        )
}

/// Whether `attempt` may answer `op`, which is past the door, with `outcome`.
pub open spec fn attempted_by<'a, R: ?Sized, G, F: FnOnce(&'a R) -> Option<G>>(
    op: Operation,
    raw: &'a R,
    attempt: F,
    outcome: Option<G>,
) -> bool {
    call_ensures(Operation::attempt::<R, G, F>, (&op, raw, attempt), outcome)
}

/// Whether `held` may be given back by an operation that has taken `batch` and unlocked
/// the bookkeeping, and has not reopened the door.
pub open spec fn given_back<G>(held: G, batch: Seq<Callback>) -> bool {
    exists|op: &mut Operation|
        {
            &&& (*op)@.phase is Carries
            &&& (*op)@.batch == batch
            &&& #[trigger] call_ensures(Operation::give_back::<G>, (op, held), ())
        }
}

/// Whether `ring` may come to `rung` for `ringer` and `callback`, handed to it by an
/// operation that has taken `batch`, given the lock back, reopened the door and
/// unlocked the bookkeeping.
pub open spec fn rung_by<S, P, F: Fn(S, Callback) -> (S, Option<P>)>(
    batch: Seq<Callback>,
    ring: F,
    ringer: S,
    callback: Callback,
    rung: (S, Option<P>),
) -> bool {
    exists|op: &Operation|
        {
            &&& op@.phase is Rings
            &&& op@.batch == batch
            &&& #[trigger] call_ensures(
                Operation::ring::<S, P, F>,
                (op, &ring, ringer, callback),
                rung,
            )
        }
}

/// Whether `held` may have been dropped, and what it stands for be let go.
pub closed spec fn dropped<G>(held: G) -> bool {
    call_ensures(let_go::<G>, (held,), ())
}

/// Drops `held`, and lets go of what it stands for.
pub(crate) fn put_down<G>(held: G)
    ensures
        dropped(held),
    opens_invariants none
{
    let_go(held);
}

/// Whether the bookkeeping that `guard` locks may have been unlocked.
pub closed spec fn unlocked(guard: StateGuard<'_>) -> bool {
    call_ensures(unlock_state, (guard,), ())
}

impl<'a> StateGuard<'a> {
    /// Unlocks the bookkeeping.
    pub fn unlock(self)
        ensures
            unlocked(self),
        opens_invariants none
        no_unwind
    {
        unlock_state(self);
    }
}

/// Whether everybody who waits for `condvar` may have been woken.
pub closed spec fn woken(condvar: &Condvar) -> bool {
    call_ensures(notify_all, (condvar,), ())
}

/// The bookkeeping proper. Each method is one critical section.
///
/// The counters saturate, which no possible run brings about.
pub struct LockStateInner {
    /// Flushes between their beginning and the reopening of the door.
    draining: u64,
    /// Write attempts between passing the door and being resolved.
    locking: u64,
    /// Shared locks that are held or waited for.
    readers: u64,
    /// Callbacks queued by lost write attempts, oldest first, if there are any.
    callbacks: Option<Vec<Callback>>,
}

/// The callbacks that are queued.
pub open spec fn queue(callbacks: Option<Vec<Callback>>) -> Seq<Callback> {
    match callbacks {
        Some(callbacks) => callbacks@,
        None => Seq::empty(),
    }
}

impl View for LockStateInner {
    type V = BellView<Callback>;

    closed spec fn view(&self) -> BellView<Callback> {
        BellView {
            draining: self.draining as nat,
            locking: self.locking as nat,
            readers: self.readers as nat,
            callbacks: queue(self.callbacks),
        }
    }
}

impl LockStateInner {
    /// Every queued callback may be called.
    #[verifier::type_invariant]
    spec fn well_formed(self) -> bool {
        &&& all_callable(queue(self.callbacks))
        &&& self.callbacks matches Some(callbacks) ==> callbacks@.len() > 0
    }

    /// The bookkeeping of an unused lock.
    pub fn new() -> (inner: Self)
        ensures
            inner@ == BellView::<Callback>::quiet(),
        opens_invariants none
    {
        LockStateInner { draining: 0, locking: 0, readers: 0, callbacks: None }
    }

    /// Whether a write attempt is unresolved, so that a flush has to wait.
    pub fn has_unresolved(&self) -> (unresolved: bool)
        ensures
            unresolved == self@.has_unresolved(),
        opens_invariants none
    {
        self.locking != 0
    }

    /// Whether a flush is under way, so that a write attempt has to wait.
    pub fn door_closed(&self) -> (closed: bool)
        ensures
            closed == self@.door_closed(),
        opens_invariants none
    {
        self.draining > 0
    }

    /// The counters: of flushes, of unresolved write attempts and of readers.
    pub fn counters(&self) -> (counters: (u64, u64, u64))
        ensures
            counters.0 == self@.draining,
            counters.1 == self@.locking,
            counters.2 == self@.readers,
        opens_invariants none
    {
        (self.draining, self.locking, self.readers)
    }

    /// Prints the counters.
    pub fn debug_text(&self) -> (text: String)
        ensures
            prints_bell(self@, text@),
    {
        print_inner(self.draining, self.locking, self.readers)
    }

    /// Counts a reader, before it waits for the lock.
    pub fn enter_shared(&mut self) -> (op: Operation)
        ensures
            final(self)@ == old(self)@.enter_shared(),
            op@ == Progress::at(Phase::WaitsShared),
            can_be_ended(),
        opens_invariants [waiting()]
    {
        proof {
            use_type_invariant(&*self);
            lemma_can_be_ended();
        }
        if self.readers < u64::MAX {
            self.readers = self.readers + 1;
        }
        Operation { progress: Ghost(Progress::at(Phase::WaitsShared)) }
    }

    /// Like [`enter_shared`](Self::enter_shared), for the bookkeeping of a lock.
    pub(crate) fn count_reader(&mut self, key: Key) -> (op: Operation)
        ensures
            final(self)@ == old(self)@.enter_shared(),
            op@ == Progress::at(Phase::WaitsShared),
            writers_ring(),
            attempts_ring(),
            can_be_settled(),
        opens_invariants [waiting()]
    {
        proof {
            use_type_invariant(&*self);
            lemma_writers_ring();
            lemma_attempts_ring();
            lemma_can_be_settled();
        }
        if self.readers < u64::MAX {
            self.readers = self.readers + 1;
        }
        Operation { progress: Ghost(Progress::at(Phase::WaitsShared)) }
    }

    /// Counts a reader if its attempt, which did not wait, got the lock.
    pub fn settle_shared<G>(&mut self, attempt: Option<G>) -> (held: Option<(Operation, G)>)
        ensures
            final(self)@ == old(self)@.settle_shared(attempt is Some),
            held is Some <==> attempt is Some,
            held matches Some((op, guard)) ==> {
                &&& op@ == Progress::at(Phase::HoldsShared)
                &&& Some(guard) == attempt
            },
            can_be_ended(),
        opens_invariants [trying()]
    {
        proof {
            use_type_invariant(&*self);
            lemma_can_be_ended();
        }
        match attempt {
            Some(guard) => {
                if self.readers < u64::MAX {
                    self.readers = self.readers + 1;
                }
                let op = Operation { progress: Ghost(Progress::at(Phase::HoldsShared)) };
                Some((op, guard))
            },
            None => None,
        }
    }

    /// Like [`settle_shared`](Self::settle_shared), for the bookkeeping of a lock.
    pub(crate) fn count_holder<G>(&mut self, attempt: Option<G>, key: Key) -> (held: Option<
        (Operation, G),
    >)
        ensures
            final(self)@ == old(self)@.settle_shared(attempt is Some),
            held is Some <==> attempt is Some,
            held matches Some((op, guard)) ==> {
                &&& op@ == Progress::at(Phase::HoldsShared)
                &&& Some(guard) == attempt
            },
            writers_ring(),
            attempts_ring(),
            can_be_settled(),
        opens_invariants [trying()]
    {
        proof {
            lemma_writers_ring();
            lemma_attempts_ring();
            lemma_can_be_settled();
        }
        match attempt {
            Some(guard) => {
                proof {
                    use_type_invariant(&*self);
                }
                if self.readers < u64::MAX {
                    self.readers = self.readers + 1;
                }
                let op = Operation { progress: Ghost(Progress::at(Phase::HoldsShared)) };
                Some((op, guard))
            },
            None => None,
        }
    }

    /// Takes a reader out of the count and tells whether it has to flush, in
    /// which case the flush has begun.
    pub fn leave_shared(&mut self, op: &mut Operation) -> (drains: bool)
        requires
            old(op)@.phase is HoldsShared,
        ensures
            final(self)@ == old(self)@.leave_shared(),
            drains == old(self)@.last_reader_drains(),
            final(op)@ == old(op)@.to(
                if drains {
                    Phase::Flushes
                } else {
                    Phase::Leaves
                },
            ),
        opens_invariants [leaving()]
    {
        proof {
            use_type_invariant(&*self);
        }
        if self.readers > 0 {
            self.readers = self.readers - 1;
        }
        let queued = match &self.callbacks {
            Some(_) => true,
            None => false,
        };
        if self.readers > 0 || self.draining > 0 || (!queued && self.locking == 0) {
            op.progress = Ghost(op@.to(Phase::Leaves));
            false
        } else {
            if self.draining < u64::MAX {
                self.draining = self.draining + 1;
            }
            op.progress = Ghost(op@.to(Phase::Flushes));
            true
        }
    }

    /// Begins the flush of a writer: from here on no write attempt passes the
    /// door.
    pub fn enter_drain(&mut self, op: &mut Operation)
        requires
            old(op)@.phase is HoldsExclusive,
        ensures
            final(self)@ == old(self)@.enter_drain(),
            final(op)@ == old(op)@.to(Phase::Flushes),
        opens_invariants [flushing()]
    {
        proof {
            use_type_invariant(&*self);
        }
        if self.draining < u64::MAX {
            self.draining = self.draining + 1;
        }
        op.progress = Ghost(op@.to(Phase::Flushes));
    }

    /// Takes the whole queue, or `None` if it is empty. No write attempt may be
    /// unresolved, or its callback would be missed.
    pub fn take_queue(&mut self, op: &mut Operation) -> (callbacks: Option<Vec<Callback>>)
        requires
            !old(self)@.has_unresolved(),
            old(op)@.phase is Flushes,
        ensures
            queue(callbacks) == old(self)@.callbacks,
            all_callable(queue(callbacks)),
            final(self)@ == old(self)@.take(),
            final(op)@ == (Progress { phase: Phase::Took, batch: queue(callbacks), ..old(op)@ }),
        opens_invariants [taking()]
    {
        proof {
            use_type_invariant(&*self);
        }
        let mut callbacks: Option<Vec<Callback>> = None;
        std::mem::swap(&mut callbacks, &mut self.callbacks);
        op.progress = Ghost(Progress { phase: Phase::Took, batch: queue(callbacks), ..op@ });
        callbacks
    }

    /// Takes the whole queue. No write attempt may be unresolved, or its callback would
    /// be missed.
    pub fn take(&mut self, op: &mut Operation) -> (callbacks: Vec<Callback>)
        requires
            !old(self)@.has_unresolved(),
            old(op)@.phase is Flushes,
        ensures
            callbacks@ == old(self)@.callbacks,
            all_callable(callbacks@),
            final(self)@ == old(self)@.take(),
            final(op)@ == (Progress { phase: Phase::Took, batch: callbacks@, ..old(op)@ }),
    {
        match self.take_queue(op) {
            Some(callbacks) => callbacks,
            None => Vec::new(),
        }
    }

    /// Ends a flush. If it was the last one, the door reopens: that is returned,
    /// and the write attempts that wait at it are woken.
    pub fn leave_drain(&mut self, op: &mut Operation, not_draining: &Condvar) -> (reopened: bool)
        requires
            old(op)@.phase is Released,
        ensures
            final(self)@ == old(self)@.leave_drain(),
            reopened == !final(self)@.door_closed(),
            reopened ==> woken(not_draining),
            final(op)@ == old(op)@.to(Phase::Reopened),
        opens_invariants [reopening()]
    {
        proof {
            use_type_invariant(&*self);
        }
        if self.draining > 0 {
            self.draining = self.draining - 1;
        }
        op.progress = Ghost(op@.to(Phase::Reopened));
        if self.draining == 0 {
            notify_all(not_draining);
            true
        } else {
            false
        }
    }

    /// Lets a write attempt through the door, which must be open.
    pub fn enter_try(&mut self) -> (op: Operation)
        requires
            !old(self)@.door_closed(),
        ensures
            final(self)@ == old(self)@.enter_try(),
            op@ == Progress::at(Phase::Tries),
            can_be_ended(),
        opens_invariants [passing()]
    {
        proof {
            use_type_invariant(&*self);
            lemma_can_be_ended();
        }
        if self.locking < u64::MAX {
            self.locking = self.locking + 1;
        }
        Operation { progress: Ghost(Progress::at(Phase::Tries)) }
    }

    /// Like [`enter_try`](Self::enter_try), for the bookkeeping of a lock.
    pub(crate) fn count_attempt(&mut self, key: Key) -> (op: Operation)
        requires
            !old(self)@.door_closed(),
        ensures
            final(self)@ == old(self)@.enter_try(),
            op@ == Progress::at(Phase::Tries),
            writers_ring(),
            can_be_settled(),
        opens_invariants [passing()]
    {
        proof {
            lemma_writers_ring();
            lemma_can_be_settled();
            use_type_invariant(&*self);
        }
        if self.locking < u64::MAX {
            self.locking = self.locking + 1;
        }
        Operation { progress: Ghost(Progress::at(Phase::Tries)) }
    }

    /// Resolves a write attempt. If it was the last one, that is returned, and
    /// the flushes that wait for it are woken; all of them, since two can wait
    /// at the same time.
    pub fn decrement_locking(&mut self, locking_zero: &Condvar) -> (resolved: bool)
        ensures
            final(self)@ == old(self)@.leave_try(),
            resolved == !final(self)@.has_unresolved(),
            resolved ==> woken(locking_zero),
        opens_invariants none
        no_unwind
    {
        proof {
            use_type_invariant(&*self);
        }
        if self.locking > 0 {
            self.locking = self.locking - 1;
        }
        if self.locking == 0 {
            notify_all(locking_zero);
            true
        } else {
            false
        }
    }

    /// Resolves a write attempt that got the lock: it holds it like any writer,
    /// and leaves no callback.
    pub fn settle_win(&mut self, op: &mut Operation, locking_zero: &Condvar) -> (resolved: bool)
        requires
            old(op)@.phase is Tries,
        ensures
            final(self)@ == old(self)@.settle_try(None),
            resolved == !final(self)@.has_unresolved(),
            resolved ==> woken(locking_zero),
            final(op)@ == old(op)@.to(Phase::HoldsExclusive),
        opens_invariants none
    {
        op.progress = Ghost(op@.to(Phase::HoldsExclusive));
        self.decrement_locking(locking_zero)
    }

    /// Resolves a write attempt that did not get the lock: it is over, and
    /// leaves its callback at the end of the queue.
    pub fn settle_loss(&mut self, op: &mut Operation, callback: Callback, locking_zero: &Condvar)
        -> (resolved: bool)
        requires
            old(op)@.phase is Tries,
            callback.callable(),
        ensures
            final(self)@ == old(self)@.settle_try(Some(callback)),
            resolved == !final(self)@.has_unresolved(),
            resolved ==> woken(locking_zero),
            final(op)@ == (Progress { phase: Phase::Over, left: Some(callback), ..old(op)@ }),
    {
        proof {
            use_type_invariant(&*self);
        }
        let mut queued: Option<Vec<Callback>> = None;
        std::mem::swap(&mut queued, &mut self.callbacks);
        let mut callbacks = match queued {
            Some(callbacks) => callbacks,
            None => Vec::new(),
        };
        callbacks.push(callback);
        self.callbacks = Some(callbacks);
        op.progress = Ghost(Progress { phase: Phase::Over, left: Some(callback), ..op@ });
        self.decrement_locking(locking_zero)
    }
}

/// Whether `text` is how `bell` is printed.
pub open spec fn prints_bell(bell: BellView<Callback>, text: Seq<char>) -> bool {
    prints_inner(bell.draining as u64, bell.locking as u64, bell.readers as u64, text)
}

} // verus!

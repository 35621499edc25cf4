//! The bell's bookkeeping, shared by every guard flavour.
//!
//! [`LockState`] never grants or releases access to the protected data: it
//! counts who is doing what, queues the callbacks of lost write attempts, and
//! decides who has to flush them.
use parking_lot::lock_api::Mutex;
use parking_lot::{Condvar, RawMutex};
use vstd::prelude::*;

use crate::callback::{all_callable, Callback};
use crate::inner::{queue, rung_by, LockStateInner, Operation, Phase, Progress};
use crate::pairing::{ends_what_is_acquired, lemma_ends_what_is_acquired};
use crate::rwlock::guard::Exit;

mod section;

pub use section::{prints_state, Key};

verus! {

/// The bookkeeping behind its own mutex, with the two conditions that threads
/// wait for.
pub struct LockState {
    pub(crate) inner: Mutex<RawMutex, LockStateInner>,
    /// Signalled when no write attempt is unresolved any more; flushes wait for it.
    pub(crate) locking_zero: Condvar,
    /// Signalled when no flush is under way any more; write attempts wait for it.
    pub(crate) not_draining: Condvar,
}

impl LockState {
    /// Releases `held`, the shared lock of `op`, and flushes the queue if it was
    /// the last one. What is rung is what `op` took.
    ///
    /// The bookkeeping comes before the release. Releasing first would let
    /// another thread take the lock before the queue is taken, and callbacks
    /// that lost to *that* thread would be rung while it still holds.
    pub fn unlock_shared<G, S, P>(
        &self,
        op: &mut Operation,
        held: G,
        ringer: S,
        ring: impl Fn(S, Callback) -> (S, Option<P>),
        unwinding: bool,
    ) -> (done: (S, Option<P>))
        requires
            old(op)@ == Progress::at(Phase::HoldsShared),
            accepts_callable(ring),
        ensures
            final(op)@.phase is Over,
            final(op)@.left is None,
            self.shared_released(held, final(op)@.batch),
            drained(ring, final(op)@.batch, ringer, unwinding, done),
            ends_what_is_acquired(),
    {
        proof {
            lemma_ends_what_is_acquired();
        }
        self.release_shared(op, held, ringer, ring, unwinding)
    }

    /// Releases `held`, the exclusive lock of `op`, and flushes the queue. What
    /// is rung is what `op` took.
    pub fn unlock_exclusive<G, S, P>(
        &self,
        op: &mut Operation,
        held: G,
        ringer: S,
        ring: impl Fn(S, Callback) -> (S, Option<P>),
        unwinding: bool,
    ) -> (done: (S, Option<P>))
        requires
            old(op)@ == Progress::at(Phase::HoldsExclusive),
            accepts_callable(ring),
        ensures
            final(op)@.phase is Over,
            final(op)@.left is None,
            self.exclusive_released(held, final(op)@.batch),
            drained(ring, final(op)@.batch, ringer, unwinding, done),
            ends_what_is_acquired(),
    {
        proof {
            lemma_ends_what_is_acquired();
        }
        self.release_exclusive(op, held, ringer, ring, unwinding)
    }

    /// Like [`unlock_shared`](Self::unlock_shared), for a guard that owns its lock.
    pub(crate) fn end_shared<G, S, P>(
        &self,
        op: &mut Operation,
        held: G,
        ringer: S,
        ring: impl Fn(S, Callback) -> (S, Option<P>),
        unwinding: bool,
        exit: Exit,
    ) -> (done: (S, Option<P>))
        requires
            old(op)@ == Progress::at(Phase::HoldsShared),
            accepts_callable(ring),
        ensures
            final(op)@.phase is Over,
            final(op)@.left is None,
            self.shared_released(held, final(op)@.batch),
            drained(ring, final(op)@.batch, ringer, unwinding, done),
    {
        self.release_shared(op, held, ringer, ring, unwinding)
    }

    /// Like [`unlock_exclusive`](Self::unlock_exclusive), for a guard that owns its lock.
    pub(crate) fn end_exclusive<G, S, P>(
        &self,
        op: &mut Operation,
        held: G,
        ringer: S,
        ring: impl Fn(S, Callback) -> (S, Option<P>),
        unwinding: bool,
        exit: Exit,
    ) -> (done: (S, Option<P>))
        requires
            old(op)@ == Progress::at(Phase::HoldsExclusive),
            accepts_callable(ring),
        ensures
            final(op)@.phase is Over,
            final(op)@.left is None,
            self.exclusive_released(held, final(op)@.batch),
            drained(ring, final(op)@.batch, ringer, unwinding, done),
    {
        self.release_exclusive(op, held, ringer, ring, unwinding)
    }

    /// Releases `held`, the shared lock of `op`, and rings what `op` took if it has to
    /// flush.
    fn release_shared<G, S, P>(
        &self,
        op: &mut Operation,
        held: G,
        ringer: S,
        ring: impl Fn(S, Callback) -> (S, Option<P>),
        unwinding: bool,
    ) -> (done: (S, Option<P>))
        requires
            old(op)@ == Progress::at(Phase::HoldsShared),
            accepts_callable(ring),
        ensures
            final(op)@.phase is Over,
            final(op)@.left is None,
            self.shared_released(held, final(op)@.batch),
            drained(ring, final(op)@.batch, ringer, unwinding, done),
    {
        match self.leave(op, held) {
            Some((held, queue)) => {
                op.give_back(held);
                drain_and_run(self, op, batch_of(queue), ringer, ring, unwinding)
            },
            None => {
                proof {
                    let none = Seq::<Option<P>>::empty();
                    assert(rang(op@.batch, ring, op@.batch.len(), seq![ringer], none));
                }
                (ringer, None)
            },
        }
    }

    /// Releases `held`, the exclusive lock of `op`, and rings what `op` took.
    fn release_exclusive<G, S, P>(
        &self,
        op: &mut Operation,
        held: G,
        ringer: S,
        ring: impl Fn(S, Callback) -> (S, Option<P>),
        unwinding: bool,
    ) -> (done: (S, Option<P>))
        requires
            old(op)@ == Progress::at(Phase::HoldsExclusive),
            accepts_callable(ring),
        ensures
            final(op)@.phase is Over,
            final(op)@.left is None,
            self.exclusive_released(held, final(op)@.batch),
            drained(ring, final(op)@.batch, ringer, unwinding, done),
    {
        let queue = self.flush(op);
        op.give_back(held);
        drain_and_run(self, op, batch_of(queue), ringer, ring, unwinding)
    }
}

/// The callbacks of a queue, which may be empty.
fn batch_of(callbacks: Option<Vec<Callback>>) -> (batch: Vec<Callback>)
    ensures
        batch@ == queue(callbacks),
{
    match callbacks {
        Some(batch) => batch,
        None => Vec::new(),
    }
}

/// Whether `ring` takes every callback that may be called.
pub open spec fn accepts_callable<S, P, F: Fn(S, Callback) -> (S, Option<P>)>(ring: F) -> bool {
    forall|ringer: S, callback: Callback|
        callback.callable() ==> #[trigger] ring.requires((ringer, callback))
}

/// Whether `ring` was given the first `count` callbacks of `batch` one after the
/// other, oldest first, by an operation that has given the lock back and left the
/// bookkeeping: `ringers[i]` went in with the `i`-th one, and `ringers[i + 1]` and
/// `panics[i]` came out.
pub open spec fn rang<S, P, F: Fn(S, Callback) -> (S, Option<P>)>(
    batch: Seq<Callback>,
    ring: F,
    count: nat,
    ringers: Seq<S>,
    panics: Seq<Option<P>>,
) -> bool {
    &&& ringers.len() == count + 1
    &&& panics.len() == count
    &&& forall|i: int|
        0 <= i < count ==> {
            &&& #[trigger] ring.ensures((ringers[i], batch[i]), (ringers[i + 1], panics[i]))
            &&& rung_by(batch, ring, ringers[i], batch[i], (ringers[i + 1], panics[i]))
        }
}

/// Whether `first` is the first of `panics` that there is.
pub open spec fn is_first_panic<P>(panics: Seq<Option<P>>, first: Option<P>) -> bool {
    match first {
        None => forall|i: int| 0 <= i < panics.len() ==> #[trigger] panics[i] is None,
        Some(_) => exists|i: int|
            {
                &&& 0 <= i < panics.len()
                &&& #[trigger] panics[i] == first
                &&& forall|j: int| 0 <= j < i ==> #[trigger] panics[j] is None
            },
    }
}

/// Whether `done` is what comes of handing `callbacks` to `ring` in order,
/// beginning with `ringer`: what the last call left, and the first panic, or no
/// panic if the thread is unwinding already.
pub open spec fn drained<S, P, F: Fn(S, Callback) -> (S, Option<P>)>(
    ring: F,
    callbacks: Seq<Callback>,
    ringer: S,
    unwinding: bool,
    done: (S, Option<P>),
) -> bool {
    exists|ringers: Seq<S>, panics: Seq<Option<P>>|
        {
            &&& #[trigger] rang(callbacks, ring, callbacks.len(), ringers, panics)
            &&& ringers.first() == ringer
            &&& ringers.last() == done.0
            &&& if unwinding {
                done.1 is None
            } else {
                is_first_panic(panics, done.1)
            }
        }
}

/// Ends a flush whose lock has been released: reopens the door, then hands
/// every callback to `ring`, oldest first, and returns the first panic.
///
/// `ring` calls the callback and returns the panic that came out of it, if any,
/// so a callback that panics does not keep the others from running. If the
/// thread is `unwinding`, no panic is returned: raising it would abort.
///
/// `ringer` is passed from each call of `ring` to the next.
pub fn drain_and_run<S, P>(
    state: &LockState,
    op: &mut Operation,
    callbacks: Vec<Callback>,
    ringer: S,
    ring: impl Fn(S, Callback) -> (S, Option<P>),
    unwinding: bool,
) -> (done: (S, Option<P>))
    requires
        old(op)@.phase is Released,
        old(op)@.batch == callbacks@,
        all_callable(callbacks@),
        accepts_callable(ring),
    ensures
        final(op)@ == old(op)@.to(Phase::Over),
        state.flush_left(),
        drained(ring, callbacks@, ringer, unwinding, done),
{
    state.reopen(op);

    let ghost batch = callbacks@;
    let ghost start = ringer;
    let ghost mut ringers: Seq<S> = seq![ringer];
    let ghost mut panics: Seq<Option<P>> = Seq::empty();
    let mut ringer = ringer;
    let mut first_panic: Option<P> = None;
    for callback in it: callbacks
        invariant
            it.seq() == batch,
            all_callable(batch),
            accepts_callable(ring),
            op@.phase is Rings,
            op@.batch == batch,
            op@.left == old(op)@.left,
            rang(batch, ring, it.index() as nat, ringers, panics),
            ringers.first() == start,
            ringers.last() == ringer,
            is_first_panic(panics, first_panic),
    {
        let (next, panic) = op.ring(&ring, ringer, callback);
        proof {
            lemma_next_panic(panics, first_panic, panic);
            ringers = ringers.push(next);
            panics = panics.push(panic);
        }
        ringer = next;
        if first_panic.is_none() {
            first_panic = panic;
        }
    }
    op.finish();
    if unwinding {
        (ringer, None)
    } else {
        (ringer, first_panic)
    }
}

/// One more outcome replaces the first panic only if there was none yet.
proof fn lemma_next_panic<P>(panics: Seq<Option<P>>, first: Option<P>, next: Option<P>)
    requires
        is_first_panic(panics, first),
    ensures
        is_first_panic(
            panics.push(next),
            if first is None {
                next
            } else {
                first
            },
        ),
{
    let longer = panics.push(next);
    if first is Some {
        let i = choose|i: int|
            {
                &&& 0 <= i < panics.len()
                &&& #[trigger] panics[i] == first
                &&& forall|j: int| 0 <= j < i ==> #[trigger] panics[j] is None
            };
        assert(longer[i] == first);
        assert forall|j: int| 0 <= j < i implies #[trigger] longer[j] is None by {
            assert(panics[j] is None);
        }
    } else {
        assert forall|j: int| 0 <= j < panics.len() implies #[trigger] longer[j] is None by {
            assert(panics[j] is None);
        }
        assert(longer[panics.len() as int] == next);
    }
}

/// Resolves a write attempt of `state` when it is dropped armed.
pub struct PanicGuard<'a> {
    state: &'a LockState,
    armed: bool,
}

impl<'a> PanicGuard<'a> {
    /// The bookkeeping whose write attempt is at stake.
    pub closed spec fn state(&self) -> &LockState {
        self.state
    }

    /// Whether being dropped resolves the attempt.
    pub closed spec fn armed(&self) -> bool {
        self.armed
    }

    /// What being dropped comes to: an armed guard resolves the attempt.
    pub closed spec fn resolved_if_armed(&self) -> bool {
        self.armed() ==> self.state().attempt_dropped()
    }

    /// Stands by to resolve a write attempt of `state`.
    pub fn arm(state: &'a LockState) -> (guard: Self)
        ensures
            guard.armed(),
            guard.state() == state,
    {
        PanicGuard { state, armed: true }
    }

    /// Calls `f`, which may panic.
    pub fn watch<T, F: FnOnce() -> T>(&self, f: F) -> (result: T)
        requires
            self.armed(),
            f.requires(()),
        ensures
            f.ensures((), result),
    {
        f()
    }

    /// Does without resolving the attempt, since `f` has returned.
    pub fn disarm(&mut self)
        ensures
            !final(self).armed(),
            final(self).state() == old(self).state(),
    {
        self.armed = false;
    }
}

impl<'a> Drop for PanicGuard<'a> {
    fn drop(&mut self)
        ensures
            old(self).resolved_if_armed(),
        opens_invariants none
        no_unwind
    {
        if self.armed {
            self.state.decrement_locking();
        }
    }
}

/// Whether `f`, watched so that a panic resolves a write attempt of `state`, may
/// return `result`, upon which the attempt is left as it is.
pub open spec fn watched<T, F: FnOnce() -> T>(state: &LockState, f: F, result: T) -> bool {
    exists|guard: PanicGuard<'_>, armed: &mut PanicGuard<'_>|
        {
            &&& guard.state() == state
            &&& guard.armed()
            &&& *armed == guard
            &&& #[trigger] call_ensures(PanicGuard::watch::<T, F>, (&guard, f), result)
            &&& #[trigger] call_ensures(PanicGuard::disarm, (armed,), ())
        }
}

/// Calls `f`; if `f` panics, resolves the write attempt that it was called for
/// before the panic propagates, or flushes would wait for it forever.
pub fn catch_panic<T>(f: impl FnOnce() -> T, state: &LockState) -> (result: T)
    requires
        f.requires(()),
    ensures
        f.ensures((), result),
        watched(state, f, result),
{
    let mut guard = PanicGuard::arm(state);
    let result = guard.watch(f);
    guard.disarm();
    result
}

} // verus!

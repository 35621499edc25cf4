//! The model of one lock in use by any number of threads.
//!
//! A [`World`] is what the threads, the lock and the bell are up to at one
//! moment; a [`Step`] is what happens next. A step stands for one critical
//! section of the bookkeeping, one operation on the lock itself, or one
//! callback being run, and it does to the bookkeeping what the functions of
//! [`BellView`] say. Steps of different operations interleave freely.
//!
//! Callbacks are known by their registration number: the first one that was
//! ever queued is 0. Operations are known by the order in which they began.
use vstd::prelude::*;

use crate::bell::BellView;
use crate::inner::Phase;

verus! {

/// How far an operation on the lock has come. An operation that is over is no
/// longer in the [`World`].
pub enum Op {
    /// A reader that is counted and waits for the lock.
    WaitsShared,
    /// A reader that holds the lock.
    HoldsShared,
    /// A writer that waits for the lock.
    WaitsExclusive,
    /// A writer that holds the lock.
    HoldsExclusive,
    /// A reader that holds the lock unknown to the bell, to format the data.
    Peeks,
    /// A write attempt that has passed the door and not tried the lock yet.
    Tries,
    /// A write attempt that has got the lock and is not resolved yet.
    Won,
    /// A write attempt that has not got the lock and is not resolved yet.
    Lost { loss: Loss },
    /// A release that has begun its flush, with the lock still held.
    Flushes { exclusive: bool },
    /// A release that has taken the queue, with the lock still held.
    Took { exclusive: bool, batch: Seq<nat> },
    /// A release that has given the lock back, with the door still closed.
    Released { exclusive: bool, batch: Seq<nat> },
    /// A release that runs its callbacks; those in `batch` are left.
    Rings { exclusive: bool, batch: Seq<nat> },
}

/// Why a write attempt did not get the lock.
pub struct Loss {
    /// The guards that held the lock; peeks are not guards.
    pub holders: Set<nat>,
    /// Whether anything but peeks was in the way.
    pub guarded: bool,
}

impl Op {
    /// Holds the lock as a guard does.
    pub open spec fn holds(self) -> bool {
        match self {
            Op::HoldsShared | Op::HoldsExclusive | Op::Won => true,
            Op::Flushes { .. } | Op::Took { .. } => true,
            _ => false,
        }
    }

    /// Holds the lock, so that nobody else can.
    pub open spec fn excludes(self) -> bool {
        match self {
            Op::HoldsExclusive | Op::Won => true,
            Op::Flushes { exclusive } => exclusive,
            Op::Took { exclusive, .. } => exclusive,
            _ => false,
        }
    }

    /// Occupies the lock in any way.
    pub open spec fn occupies(self) -> bool {
        self.holds() || self is Peeks
    }

    /// Is in the middle of getting the lock.
    pub open spec fn waits(self) -> bool {
        self is WaitsShared || self is WaitsExclusive
    }

    /// Is in the bell's count of readers.
    pub open spec fn counted_reader(self) -> bool {
        self is WaitsShared || self is HoldsShared
    }

    /// Is in the bell's count of unresolved write attempts.
    pub open spec fn unresolved(self) -> bool {
        self is Tries || self is Won || self is Lost
    }

    /// Is in the bell's count of flushes.
    pub open spec fn draining(self) -> bool {
        self is Flushes || self is Took || self is Released
    }

    /// Has the taking of the queue still before it.
    pub open spec fn will_flush(self) -> bool {
        match self {
            Op::WaitsShared | Op::HoldsShared => true,
            Op::WaitsExclusive | Op::HoldsExclusive | Op::Won => true,
            Op::Flushes { .. } => true,
            _ => false,
        }
    }

    /// Has taken the queue and not reopened the door yet.
    pub open spec fn took(self) -> bool {
        self is Took || self is Released
    }

    /// The phase of the [`Operation`](crate::inner::Operation) that carries this
    /// operation out. A peek has none.
    pub open spec fn phase(self) -> Phase {
        match self {
            Op::WaitsShared => Phase::WaitsShared,
            Op::HoldsShared => Phase::HoldsShared,
            Op::WaitsExclusive => Phase::WaitsExclusive,
            Op::HoldsExclusive => Phase::HoldsExclusive,
            Op::Tries | Op::Won | Op::Lost { .. } => Phase::Tries,
            Op::Flushes { .. } => Phase::Flushes,
            Op::Took { .. } => Phase::Carries,
            Op::Released { .. } => Phase::Released,
            Op::Rings { .. } => Phase::Rings,
            Op::Peeks => Phase::Over,
        }
    }

    /// The callbacks that this operation has taken and not run yet.
    pub open spec fn batch(self) -> Seq<nat> {
        match self {
            Op::Took { batch, .. } => batch,
            Op::Released { batch, .. } => batch,
            Op::Rings { batch, .. } => batch,
            _ => Seq::empty(),
        }
    }
}

/// The lock, the bell and every operation on them, at one moment.
pub struct World {
    /// The bookkeeping.
    pub bell: BellView<nat>,
    /// The operations that are not over.
    pub ops: Map<nat, Op>,
    /// How many operations have begun.
    pub begun: nat,
    /// For each registered callback, why its write attempt was lost.
    pub losses: Seq<Loss>,
    /// The callbacks that have run, in the order in which they did.
    pub rung: Seq<nat>,
}

/// Something that can happen. The argument is the operation that moves; a step
/// without one begins an operation.
pub enum Step {
    /// A reader is counted, and waits.
    BeginShared,
    /// A waiting reader gets the lock.
    AcquireShared(nat),
    /// A reader gets the lock without waiting, and is counted.
    TryShared,
    /// A writer waits.
    BeginExclusive,
    /// A waiting writer gets the lock.
    AcquireExclusive(nat),
    /// A bell-free shared lock is taken.
    BeginPeek,
    /// It is given back.
    EndPeek(nat),
    /// A write attempt passes the door.
    BeginTry,
    /// It gets the lock.
    Win(nat),
    /// It is resolved, and holds the lock like any writer.
    SettleWin(nat),
    /// It does not get the lock.
    Lose(nat),
    /// It is resolved, leaving its callback.
    SettleLoss(nat),
    /// It is resolved without a callback, since building one panicked.
    AbandonLoss(nat),
    /// A reader releases the lock: it is over at once or begins a flush.
    ReleaseShared(nat),
    /// A writer releases the lock by beginning a flush.
    ReleaseExclusive(nat),
    /// A flush takes the queue.
    Take(nat),
    /// It gives the lock back.
    GiveBack(nat),
    /// It reopens the door, as far as that is up to it.
    Reopen(nat),
    /// It runs its next callback.
    Ring(nat),
    /// It has no callback left.
    Finish(nat),
}

impl World {
    /// A lock that nobody has used yet.
    pub open spec fn start() -> Self {
        World {
            bell: BellView::quiet(),
            ops: Map::empty(),
            begun: 0,
            losses: Seq::empty(),
            rung: Seq::empty(),
        }
    }

    /// Operation `i` is not over.
    pub open spec fn has(self, i: nat) -> bool {
        self.ops.dom().contains(i)
    }

    /// Operation `i` is not over, and holds the lock as a guard does.
    pub open spec fn holds(self, i: nat) -> bool {
        self.has(i) && self.ops[i].holds()
    }

    /// The guards that hold the lock.
    pub open spec fn holders(self) -> Set<nat> {
        self.ops.dom().filter(|i: nat| self.ops[i].holds())
    }

    /// Nobody has the lock to itself.
    pub open spec fn shareable(self) -> bool {
        forall|i: nat| self.has(i) ==> !(#[trigger] self.ops[i]).excludes()
    }

    /// Nobody has the lock at all.
    pub open spec fn free(self) -> bool {
        forall|i: nat| self.has(i) ==> !(#[trigger] self.ops[i]).occupies()
    }

    /// Somebody has the lock or is about to get it.
    pub open spec fn contended(self) -> bool {
        exists|i: nat| self.has(i) && ((#[trigger] self.ops[i]).occupies() || self.ops[i].waits())
    }

    /// Somebody other than a peek has the lock or is about to get it.
    pub open spec fn guarded(self) -> bool {
        exists|i: nat| self.has(i) && ((#[trigger] self.ops[i]).holds() || self.ops[i].waits())
    }

    /// A new operation begins.
    pub open spec fn begin(self, op: Op) -> Self {
        World { ops: self.ops.insert(self.begun, op), begun: self.begun + 1, ..self }
    }

    /// Operation `i` moves on.
    pub open spec fn put(self, i: nat, op: Op) -> Self {
        World { ops: self.ops.insert(i, op), ..self }
    }

    /// Operation `i` is over.
    pub open spec fn end(self, i: nat) -> Self {
        World { ops: self.ops.remove(i), ..self }
    }

    /// The bookkeeping changes.
    pub open spec fn with(self, bell: BellView<nat>) -> Self {
        World { bell, ..self }
    }

    /// Whether `step` can happen now.
    ///
    /// The lock is granted as a reader-writer lock grants it, and the bell's
    /// counters do not overflow. Whether a write attempt that meets waiters but
    /// no holder wins is left open.
    pub open spec fn can(self, step: Step) -> bool {
        match step {
            Step::BeginShared => self.bell.readers < u64::MAX,
            Step::AcquireShared(i) => self.has(i) && self.ops[i] is WaitsShared && self.shareable(),
            Step::TryShared => self.bell.readers < u64::MAX && self.shareable(),
            Step::BeginExclusive => true,
            Step::AcquireExclusive(i) => self.has(i) && self.ops[i] is WaitsExclusive
                && self.free(),
            Step::BeginPeek => self.shareable(),
            Step::EndPeek(i) => self.has(i) && self.ops[i] is Peeks,
            Step::BeginTry => self.bell.locking < u64::MAX && !self.bell.door_closed(),
            Step::Win(i) => self.has(i) && self.ops[i] is Tries && self.free(),
            Step::SettleWin(i) => self.has(i) && self.ops[i] is Won,
            Step::Lose(i) => self.has(i) && self.ops[i] is Tries && self.contended(),
            Step::SettleLoss(i) => self.has(i) && self.ops[i] is Lost,
            Step::AbandonLoss(i) => self.has(i) && self.ops[i] is Lost,
            Step::ReleaseShared(i) => self.has(i) && self.ops[i] is HoldsShared
                && self.bell.draining < u64::MAX,
            Step::ReleaseExclusive(i) => self.has(i) && self.ops[i] is HoldsExclusive
                && self.bell.draining < u64::MAX,
            Step::Take(i) => self.has(i) && self.ops[i] is Flushes && !self.bell.has_unresolved(),
            Step::GiveBack(i) => self.has(i) && self.ops[i] is Took,
            Step::Reopen(i) => self.has(i) && self.ops[i] is Released,
            Step::Ring(i) => self.has(i) && self.ops[i] is Rings && self.ops[i].batch().len() > 0,
            Step::Finish(i) => self.has(i) && self.ops[i] is Rings && self.ops[i].batch().len()
                == 0,
        }
    }

    /// What `step` leads to.
    pub open spec fn after(self, step: Step) -> Self {
        match step {
            Step::BeginShared => self.begin(Op::WaitsShared).with(self.bell.enter_shared()),
            Step::AcquireShared(i) => self.put(i, Op::HoldsShared),
            Step::TryShared => self.begin(Op::HoldsShared).with(self.bell.settle_shared(true)),
            Step::BeginExclusive => self.begin(Op::WaitsExclusive),
            Step::AcquireExclusive(i) => self.put(i, Op::HoldsExclusive),
            Step::BeginPeek => self.begin(Op::Peeks),
            Step::EndPeek(i) => self.end(i),
            Step::BeginTry => self.begin(Op::Tries).with(self.bell.enter_try()),
            Step::Win(i) => self.put(i, Op::Won),
            Step::SettleWin(i) => self.put(i, Op::HoldsExclusive).with(self.bell.settle_try(None)),
            Step::Lose(i) => {
                let loss = Loss { holders: self.holders(), guarded: self.guarded() };
                self.put(i, Op::Lost { loss })
            },
            Step::SettleLoss(i) => World {
                losses: self.losses.push(self.ops[i]->loss),
                ..self.end(i).with(self.bell.settle_try(Some(self.losses.len())))
            },
            Step::AbandonLoss(i) => self.end(i).with(self.bell.leave_try()),
            Step::ReleaseShared(i) => if self.bell.last_reader_drains() {
                self.put(i, Op::Flushes { exclusive: false }).with(self.bell.leave_shared())
            } else {
                self.end(i).with(self.bell.leave_shared())
            },
            Step::ReleaseExclusive(i) => self.put(i, Op::Flushes { exclusive: true }).with(
                self.bell.enter_drain(),
            ),
            Step::Take(i) => {
                let exclusive = self.ops[i]->Flushes_exclusive;
                self.put(i, Op::Took { exclusive, batch: self.bell.callbacks }).with(
                    self.bell.take(),
                )
            },
            Step::GiveBack(i) => {
                let exclusive = self.ops[i]->Took_exclusive;
                self.put(i, Op::Released { exclusive, batch: self.ops[i].batch() })
            },
            Step::Reopen(i) => {
                let exclusive = self.ops[i]->Released_exclusive;
                self.put(i, Op::Rings { exclusive, batch: self.ops[i].batch() }).with(
                    self.bell.leave_drain(),
                )
            },
            Step::Ring(i) => {
                let exclusive = self.ops[i]->Rings_exclusive;
                let batch = self.ops[i].batch();
                World {
                    rung: self.rung.push(batch.first()),
                    ..self.put(i, Op::Rings { exclusive, batch: batch.drop_first() })
                }
            },
            Step::Finish(i) => self.end(i),
        }
    }
}

/// Where the steps of `run` lead from the start.
pub open spec fn reached(run: Seq<Step>) -> World
    decreases run.len(),
{
    if run.len() == 0 {
        World::start()
    } else {
        reached(run.drop_last()).after(run.last())
    }
}

/// Whether every step of `run` can happen when its turn comes.
pub open spec fn possible(run: Seq<Step>) -> bool
    decreases run.len(),
{
    run.len() > 0 ==> possible(run.drop_last()) && reached(run.drop_last()).can(run.last())
}

} // verus!

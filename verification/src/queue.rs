//! What the critical sections do to the queue and to the counts, whoever goes through
//! them, and in whatever order.
//!
//! A [`Section`] is one critical section of [`LockStateInner`], which does to the
//! bookkeeping what [`BellView::after_one`] says. The laws speak of every sequence of
//! sections, so of every number of threads.
//!
//! [`LockStateInner`]: crate::inner::LockStateInner
use vstd::prelude::*;

use crate::bell::BellView;
use crate::protocol::{possible, reached, Op, Step};
use crate::soundness::{count, lemma_reached_sound};

verus! {

/// A critical section.
pub enum Section<C> {
    /// A reader is counted, and will wait.
    EnterShared,
    /// A reader is counted if it got the lock without waiting.
    SettleShared { acquired: bool },
    /// A reader leaves, and begins a flush if that falls to it.
    LeaveShared,
    /// A writer begins a flush.
    EnterDrain,
    /// A flush takes the queue.
    Take,
    /// A flush ends.
    LeaveDrain,
    /// A write attempt passes the door.
    EnterTry,
    /// A write attempt is resolved, and leaves its callback if it lost.
    SettleTry { lost: Option<C> },
    /// A write attempt is resolved, with no callback built.
    LeaveTry,
}

impl<C> BellView<C> {
    /// The bookkeeping after `section`.
    pub open spec fn after_one(self, section: Section<C>) -> Self {
        match section {
            Section::EnterShared => self.enter_shared(),
            Section::SettleShared { acquired } => self.settle_shared(acquired),
            Section::LeaveShared => self.leave_shared(),
            Section::EnterDrain => self.enter_drain(),
            Section::Take => self.take(),
            Section::LeaveDrain => self.leave_drain(),
            Section::EnterTry => self.enter_try(),
            Section::SettleTry { lost } => self.settle_try(lost),
            Section::LeaveTry => self.leave_try(),
        }
    }

    /// The bookkeeping after all of `sections`.
    pub open spec fn after_all(self, sections: Seq<Section<C>>) -> Self
        decreases sections.len(),
    {
        if sections.len() == 0 {
            self
        } else {
            self.after_all(sections.drop_last()).after_one(sections.last())
        }
    }

    /// The batches that `sections` take, one behind the other.
    pub open spec fn taken_by(self, sections: Seq<Section<C>>) -> Seq<C>
        decreases sections.len(),
    {
        if sections.len() == 0 {
            Seq::empty()
        } else {
            let before = sections.drop_last();
            self.taken_by(before) + if sections.last() is Take {
                self.after_all(before).callbacks
            } else {
                Seq::empty()
            }
        }
    }
}

/// The callbacks that `sections` leave in the queue, in the order in which they do.
pub open spec fn registered<C>(sections: Seq<Section<C>>) -> Seq<C>
    decreases sections.len(),
{
    if sections.len() == 0 {
        Seq::empty()
    } else {
        let before = registered(sections.drop_last());
        match sections.last() {
            Section::SettleTry { lost: Some(callback) } => before.push(callback),
            _ => before,
        }
    }
}

/// How many readers `sections` count, less how many they take out of the count.
pub open spec fn joined<C>(sections: Seq<Section<C>>) -> int
    decreases sections.len(),
{
    if sections.len() == 0 {
        0
    } else {
        let before = joined(sections.drop_last());
        match sections.last() {
            Section::EnterShared => before + 1,
            Section::SettleShared { acquired: true } => before + 1,
            Section::LeaveShared => before - 1,
            _ => before,
        }
    }
}

/// How many write attempts `sections` let through the door, less how many they resolve.
pub open spec fn attempting<C>(sections: Seq<Section<C>>) -> int
    decreases sections.len(),
{
    if sections.len() == 0 {
        0
    } else {
        let before = attempting(sections.drop_last());
        match sections.last() {
            Section::EnterTry => before + 1,
            Section::SettleTry { .. } | Section::LeaveTry => before - 1,
            _ => before,
        }
    }
}

/// No callback is lost, doubled, made up or moved: what was queued at first and what was
/// registered since, in that order, is what was taken and what is queued still, in that
/// order.
pub proof fn law_what_is_registered_is_taken_or_queued<C>(
    bell: BellView<C>,
    sections: Seq<Section<C>>,
)
    ensures
        bell.taken_by(sections) + bell.after_all(sections).callbacks == bell.callbacks
            + registered(sections),
    decreases sections.len(),
{
    if sections.len() > 0 {
        let before = sections.drop_last();
        law_what_is_registered_is_taken_or_queued(bell, before);
        let queue = bell.after_all(before).callbacks;
        match sections.last() {
            Section::Take => {
                assert(bell.taken_by(sections) + bell.after_all(sections).callbacks
                    =~= bell.taken_by(before) + queue);
            },
            Section::SettleTry { lost: Some(callback) } => {
                assert(bell.taken_by(sections) + bell.after_all(sections).callbacks =~= (
                bell.taken_by(before) + queue).push(callback));
                assert(bell.callbacks + registered(sections) =~= (bell.callbacks + registered(
                    before,
                )).push(callback));
            },
            _ => {
                assert(bell.taken_by(sections) =~= bell.taken_by(before));
            },
        }
    }
}

/// A flush takes what was queued when its release began, and behind it whatever was
/// registered until it took the queue, in registration order; and it leaves nothing.
/// That is so unless another flush takes the queue in between.
pub proof fn law_a_batch_extends_the_queue_of_its_beginning<C>(
    bell: BellView<C>,
    until: Seq<Section<C>>,
)
    requires
        forall|k: int| 0 <= k < until.len() ==> (#[trigger] until[k]) !is Take,
    ensures
        bell.after_all(until).callbacks == bell.callbacks + registered(until),
        bell.after_all(until).after_one(Section::Take).callbacks.len() == 0,
{
    law_what_is_registered_is_taken_or_queued(bell, until);
    lemma_nothing_taken(bell, until);
    assert(bell.taken_by(until) + bell.after_all(until).callbacks =~= bell.after_all(
        until,
    ).callbacks);
}

proof fn lemma_nothing_taken<C>(bell: BellView<C>, sections: Seq<Section<C>>)
    requires
        forall|k: int| 0 <= k < sections.len() ==> (#[trigger] sections[k]) !is Take,
    ensures
        bell.taken_by(sections).len() == 0,
    decreases sections.len(),
{
    if sections.len() > 0 {
        let before = sections.drop_last();
        assert forall|k: int| 0 <= k < before.len() implies (#[trigger] before[k]) !is Take by {
            assert(before[k] == sections[k]);
        }
        lemma_nothing_taken(bell, before);
        assert(sections[sections.len() - 1] == sections.last());
    }
}

/// A lost attempt appends its callback and does nothing else to the queue; an attempt
/// that wins, and one that builds no callback, do nothing to it. The count of attempts
/// is what it was.
pub proof fn law_an_attempt_only_appends<C>(bell: BellView<C>, lost: Option<C>)
    requires
        bell.locking < u64::MAX,
    ensures
        bell.enter_try().settle_try(lost) == (BellView {
            callbacks: match lost {
                Some(callback) => bell.callbacks.push(callback),
                None => bell.callbacks,
            },
            ..bell
        }),
        bell.enter_try().leave_try() == bell,
{
}

/// Releasing a reader undoes counting it, and releasing a flush undoes beginning it: what
/// is left of either is a queue that was taken, if it was a flush.
pub proof fn law_a_release_undoes_its_acquisition<C>(bell: BellView<C>)
    requires
        bell.readers < u64::MAX,
        bell.draining < u64::MAX,
    ensures
        ({
            let left = bell.enter_shared().leave_shared();
            &&& left.draining == bell.draining ==> left == bell
            &&& left.draining != bell.draining ==> left.take().leave_drain() == bell.take()
        }),
        bell.settle_shared(true) == bell.enter_shared(),
        bell.settle_shared(false) == bell,
        bell.enter_drain().take().leave_drain() == bell.take(),
{
}

/// The counts are exact: readers are as many as have been counted and not left, and
/// unresolved attempts as many as have passed the door and not been resolved, as long as
/// nobody leaves who was not counted and no count is full.
pub proof fn law_the_counts_are_exact<C>(bell: BellView<C>, sections: Seq<Section<C>>)
    requires
        forall|n: int|
            0 <= n <= sections.len() ==> 0 <= bell.readers + joined(#[trigger] sections.take(n))
                <= u64::MAX,
        forall|n: int|
            0 <= n <= sections.len() ==> 0 <= bell.locking + attempting(
                #[trigger] sections.take(n),
            ) <= u64::MAX,
    ensures
        bell.after_all(sections).readers == bell.readers + joined(sections),
        bell.after_all(sections).locking == bell.locking + attempting(sections),
    decreases sections.len(),
{
    assert(sections.take(sections.len() as int) =~= sections);
    if sections.len() > 0 {
        let before = sections.drop_last();
        assert(sections.take(sections.len() - 1) =~= before);
        assert forall|n: int| 0 <= n <= before.len() implies {
            &&& 0 <= bell.readers + joined(#[trigger] before.take(n)) <= u64::MAX
            &&& 0 <= bell.locking + attempting(before.take(n)) <= u64::MAX
        } by {
            assert(before.take(n) =~= sections.take(n));
        }
        law_the_counts_are_exact(bell, before);
    }
}

/// Of any number of threads: the readers that are counted are exactly those that hold
/// the lock or wait for it, each counted once.
pub proof fn law_each_reader_is_counted_once(run: Seq<Step>)
    requires
        possible(run),
    ensures
        reached(run).bell.readers == count(reached(run).ops, |op: Op| op.counted_reader()),
        reached(run).bell.locking == count(reached(run).ops, |op: Op| op.unresolved()),
        reached(run).bell.draining == count(reached(run).ops, |op: Op| op.draining()),
{
    lemma_reached_sound(run);
}

/// The queue is taken only by an operation that holds the lock, and a callback runs only
/// when the operation that runs it holds nothing.
pub proof fn law_only_a_holder_takes(run: Seq<Step>, i: nat)
    requires
        possible(run),
    ensures
        reached(run).can(Step::Take(i)) ==> reached(run).holds(i),
        reached(run).can(Step::Ring(i)) ==> !reached(run).holds(i),
{
}

} // verus!

//! What holds of a lock whatever its threads do, in whatever order.
//!
//! Each law speaks of the [`World`] that some possible run of steps leads to,
//! so of every interleaving of every number of operations.
use vstd::prelude::*;

use crate::inner::Phase;
use crate::protocol::{possible, reached, Op, Step, World};
use crate::soundness::{lemma_count_positive, lemma_reached_sound, lemma_step_keeps_sound};

verus! {

/// No callback is stranded: one that lost to a guard, or to somebody about to
/// become one, is queued only as long as somebody has a flush before it.
///
/// A callback that lost only to peeks may wait for the next release.
pub proof fn law_nothing_is_stranded(run: Seq<Step>)
    requires
        possible(run),
        forall|i: nat|
            reached(run).has(i) ==> !(#[trigger] reached(run).ops[i]).will_flush(),
    ensures
        forall|k: int|
            0 <= k < reached(run).bell.callbacks.len() ==> !reached(run).losses[(
            #[trigger] reached(run).bell.callbacks[k]) as int].guarded,
{
    lemma_reached_sound(run);
}

/// No callback runs twice, and none runs that was not registered.
pub proof fn law_rung_at_most_once(run: Seq<Step>)
    requires
        possible(run),
    ensures
        reached(run).rung.no_duplicates(),
        forall|n: nat| #[trigger]
            reached(run).rung.contains(n) ==> n < reached(run).losses.len(),
{
    lemma_reached_sound(run);
}

/// No callback is lost: a registered one is queued, or some flush carries it,
/// or it has run, and never two of these at once.
pub proof fn law_every_callback_is_somewhere(run: Seq<Step>, n: nat)
    requires
        possible(run),
        n < reached(run).losses.len(),
    ensures
        ({
            let w = reached(run);
            let queued = w.bell.callbacks.contains(n);
            let carried = exists|i: nat| w.carries(i, n);
            let rung = w.rung.contains(n);
            &&& queued || carried || rung
            &&& !(queued && carried)
            &&& !(queued && rung)
            &&& !(carried && rung)
        }),
        forall|i: nat, j: nat| #[trigger]
            reached(run).carries(i, n) && #[trigger] reached(run).carries(j, n) ==> i == j,
{
    lemma_reached_sound(run);
    let w = reached(run);
    if w.taken() <= n {
        assert(w.bell.callbacks[n - w.taken()] == n);
    } else {
        assert(w.rung.contains(n) || exists|i: nat| w.carries(i, n));
    }
}

/// Nothing but peeks gets in the way unrecorded: in a run without peeks, every
/// loss is to a guard or to somebody about to become one.
proof fn lemma_without_peeks(run: Seq<Step>)
    requires
        possible(run),
        forall|p: int| 0 <= p < run.len() ==> !((#[trigger] run[p]) is BeginPeek),
    ensures
        forall|i: nat| reached(run).has(i) ==> !((#[trigger] reached(run).ops[i]) is Peeks),
        forall|i: nat|
            reached(run).has(i) && (#[trigger] reached(run).ops[i]) is Lost
                ==> reached(run).ops[i]->loss.guarded,
        forall|n: int|
            0 <= n < reached(run).losses.len() ==> (#[trigger] reached(run).losses[n]).guarded,
    decreases run.len(),
{
    if run.len() > 0 {
        let before = run.drop_last();
        assert forall|p: int| 0 <= p < before.len() implies !((#[trigger] before[p])
            is BeginPeek) by {
            assert(run[p] == before[p]);
        }
        lemma_without_peeks(before);
        let w = reached(before);
        let a = reached(run);
        assert(!(run.last() is BeginPeek)) by {
            assert(run[run.len() - 1] == run.last());
        }
        assert forall|i: nat| a.has(i) implies {
            &&& !((#[trigger] a.ops[i]) is Peeks)
            &&& a.ops[i] is Lost ==> a.ops[i]->loss.guarded
        } by {
            if w.has(i) {
                assert(!(w.ops[i] is Peeks));
            }
            if run.last() is Lose && w.contended() {
                let j = choose|j: nat|
                    w.has(j) && ((#[trigger] w.ops[j]).occupies() || w.ops[j].waits());
                assert(w.ops[j].holds() || w.ops[j].waits());
            }
        }
    }
}

/// Once every operation is over, every callback that was registered has run,
/// exactly once; in a run without peeks.
pub proof fn law_every_callback_rings(run: Seq<Step>)
    requires
        possible(run),
        forall|p: int| 0 <= p < run.len() ==> !((#[trigger] run[p]) is BeginPeek),
        forall|i: nat| !(#[trigger] reached(run).has(i)),
    ensures
        reached(run).bell.callbacks.len() == 0,
        reached(run).rung.no_duplicates(),
        forall|n: nat| #[trigger]
            reached(run).rung.contains(n) <==> n < reached(run).losses.len(),
{
    lemma_reached_sound(run);
    lemma_without_peeks(run);
    let w = reached(run);
    if w.bell.callbacks.len() > 0 {
        assert(w.bell.callbacks[0] == w.taken());
        assert(w.losses[w.bell.callbacks[0] as int].guarded);
    }
    assert forall|n: nat| n < w.losses.len() implies #[trigger] w.rung.contains(n) by {
        if !w.rung.contains(n) {
            let i = choose|i: nat| w.carries(i, n);
            assert(w.has(i));
        }
    }
}

/// A flush takes whatever is queued: every registration that no earlier flush
/// has taken, oldest first.
pub proof fn law_a_flush_takes_everything(run: Seq<Step>, i: nat)
    requires
        possible(run),
        reached(run).can(Step::Take(i)),
    ensures
        ({
            let w = reached(run);
            let batch = w.after(Step::Take(i)).ops[i].batch();
            &&& batch == w.bell.callbacks
            &&& w.after(Step::Take(i)).bell.callbacks.len() == 0
            &&& forall|k: int| 0 <= k < batch.len() ==> #[trigger] batch[k] == w.taken() + k
        }),
{
    lemma_reached_sound(run);
}

/// After operation `i` has run callback `n`, it carries later ones only.
proof fn lemma_rings_forward(run: Seq<Step>, more: Seq<Step>, i: nat)
    requires
        possible(run + more),
        reached(run).can(Step::Ring(i)),
        more.len() > 0,
        more.first() == Step::Ring(i),
    ensures
        reached(run + more).has(i) ==> reached(run + more).ops[i] is Rings,
        i < reached(run + more).begun,
        forall|n: nat| #[trigger]
            reached(run + more).carries(i, n) ==> n > reached(run).ops[i].batch().first(),
    decreases more.len(),
{
    let whole = run + more;
    let before = whole.drop_last();
    let first = reached(run).ops[i].batch().first();
    if more.len() == 1 {
        assert(before =~= run);
        lemma_reached_sound(run);
        let batch = reached(run).ops[i].batch();
        assert(reached(run).has(i));
        assert forall|n: nat| #[trigger] reached(whole).carries(i, n) implies n > first by {
            let rest = reached(whole).ops[i].batch();
            let k = choose|k: int| 0 <= k < rest.len() && rest[k] == n;
            assert(batch[0] < batch[k + 1]);
        }
    } else {
        let shorter = more.drop_last();
        assert(before =~= run + shorter);
        assert(shorter.first() == more.first());
        lemma_rings_forward(run, shorter, i);
        let w = reached(before);
        let a = reached(whole);
        assert forall|n: nat| #[trigger] a.carries(i, n) implies n > first by {
            assert(w.has(i));
            let k = choose|k: int| 0 <= k < a.ops[i].batch().len() && a.ops[i].batch()[k] == n;
            if whole.last() == Step::Ring(i) {
                assert(w.ops[i].batch()[k + 1] == n);
            } else {
                assert(w.ops[i].batch()[k] == n);
            }
            assert(w.carries(i, n));
        }
    }
}

/// First in, first out: of two callbacks that one flush runs, the one that runs
/// first was registered first.
pub proof fn law_first_in_first_out(run: Seq<Step>, between: Seq<Step>, i: nat)
    requires
        possible(run.push(Step::Ring(i)) + between),
        reached(run).can(Step::Ring(i)),
        reached(run.push(Step::Ring(i)) + between).can(Step::Ring(i)),
    ensures
        reached(run).ops[i].batch().first() < reached(
            run.push(Step::Ring(i)) + between,
        ).ops[i].batch().first(),
{
    let more = seq![Step::Ring(i)] + between;
    assert(run + more =~= run.push(Step::Ring(i)) + between);
    lemma_rings_forward(run, more, i);
    let later = reached(run + more);
    assert(later.carries(i, later.ops[i].batch().first()));
}

/// A callback runs after the release that rings it has given the lock back. If
/// that was a writer's, nobody who turned the write attempt away still holds the
/// lock; if it was a reader's, nobody does, or that reader was one of them.
pub proof fn law_rung_after_release(run: Seq<Step>, i: nat)
    requires
        possible(run),
        reached(run).can(Step::Ring(i)),
    ensures
        ({
            let w = reached(run);
            let loss = w.losses[w.ops[i].batch().first() as int];
            let all_gone = forall|h: nat| #[trigger] loss.holders.contains(h) ==> !w.holds(h);
            &&& !w.holds(i)
            &&& w.ops[i].was_exclusive() ==> all_gone
            &&& all_gone || loss.holders.contains(i)
        }),
{
    lemma_reached_sound(run);
    let w = reached(run);
    let n = w.ops[i].batch().first();
    assert(w.carries(i, n));
    let loss = w.losses[n as int];
    if w.cleared_except(loss, i) {
        assert(forall|h: nat| #[trigger] loss.holders.contains(h) ==> !w.holds(h));
    }
}

/// No callback can land in a batch that has been taken: from the taking of the
/// queue until the door reopens, no write attempt is unresolved, none can begin,
/// and nothing is queued.
pub proof fn law_the_door_holds(run: Seq<Step>, i: nat)
    requires
        possible(run),
        reached(run).has(i),
        reached(run).ops[i].took(),
    ensures
        !reached(run).bell.has_unresolved(),
        !reached(run).can(Step::BeginTry),
        reached(run).bell.callbacks.len() == 0,
{
    lemma_reached_sound(run);
    let draining = |op: Op| op.draining();
    lemma_count_positive(reached(run).ops, draining);
    assert(draining(reached(run).ops[i]));
}

/// The door is closed exactly as long as some flush is under way, so the last
/// one reopens it however they overlap; and a flush may take the queue exactly
/// when no write attempt is unresolved.
pub proof fn law_counters_tell_the_truth(run: Seq<Step>)
    requires
        possible(run),
    ensures
        reached(run).bell.door_closed() <==> exists|i: nat|
            reached(run).has(i) && (#[trigger] reached(run).ops[i]).draining(),
        reached(run).bell.has_unresolved() <==> exists|i: nat|
            reached(run).has(i) && (#[trigger] reached(run).ops[i]).unresolved(),
        reached(run).bell.readers > 0 <==> exists|i: nat|
            reached(run).has(i) && (#[trigger] reached(run).ops[i]).counted_reader(),
{
    lemma_reached_sound(run);
    let w = reached(run);
    let draining = |op: Op| op.draining();
    let unresolved = |op: Op| op.unresolved();
    let readers = |op: Op| op.counted_reader();
    lemma_count_positive(w.ops, draining);
    lemma_count_positive(w.ops, unresolved);
    lemma_count_positive(w.ops, readers);
    assert forall|i: nat| w.has(i) implies {
        &&& draining(#[trigger] w.ops[i]) == w.ops[i].draining()
        &&& unresolved(w.ops[i]) == w.ops[i].unresolved()
        &&& readers(w.ops[i]) == w.ops[i].counted_reader()
    } by {}
}

/// No counter is ever lowered below zero: what a step takes out of a count was
/// in it.
pub proof fn law_counters_never_underflow(run: Seq<Step>, i: nat)
    requires
        possible(run),
    ensures
        reached(run).can(Step::ReleaseShared(i)) ==> reached(run).bell.readers > 0,
        reached(run).can(Step::SettleWin(i)) ==> reached(run).bell.locking > 0,
        reached(run).can(Step::SettleLoss(i)) ==> reached(run).bell.locking > 0,
        reached(run).can(Step::AbandonLoss(i)) ==> reached(run).bell.locking > 0,
        reached(run).can(Step::Reopen(i)) ==> reached(run).bell.draining > 0,
{
    law_counters_tell_the_truth(run);
}

/// Whoever has the lock exclusively is the only one who has it, through the
/// whole release up to the moment the lock is given back.
pub proof fn law_exclusive_means_alone(run: Seq<Step>, i: nat, j: nat)
    requires
        possible(run),
        reached(run).has(i),
        reached(run).has(j),
        reached(run).ops[i].excludes(),
        reached(run).ops[j].occupies(),
    ensures
        i == j,
{
    lemma_reached_sound(run);
}

/// A reader that is not the last one leaves the queue alone.
pub proof fn law_only_the_last_reader_flushes(run: Seq<Step>, i: nat)
    requires
        possible(run),
        reached(run).can(Step::ReleaseShared(i)),
        exists|j: nat|
            j != i && reached(run).has(j) && (#[trigger] reached(run).ops[j]).counted_reader(),
    ensures
        !reached(run).after(Step::ReleaseShared(i)).has(i),
        reached(run).after(Step::ReleaseShared(i)).bell.callbacks == reached(run).bell.callbacks,
{
    lemma_reached_sound(run);
    let w = reached(run);
    let a = w.after(Step::ReleaseShared(i));
    lemma_step_keeps_sound(w, Step::ReleaseShared(i));
    let j = choose|j: nat| j != i && w.has(j) && (#[trigger] w.ops[j]).counted_reader();
    let readers = |op: Op| op.counted_reader();
    lemma_count_positive(a.ops, readers);
    assert(a.has(j) && readers(a.ops[j]));
}

/// Peeking never rings: it changes nothing but the peek itself.
pub proof fn law_peeking_is_silent(w: World, i: nat)
    requires
        w.numbered(),
    ensures
        w.after(Step::BeginPeek).bell == w.bell,
        w.after(Step::BeginPeek).losses == w.losses,
        w.after(Step::BeginPeek).rung == w.rung,
        forall|j: nat| #[trigger]
            w.has(j) ==> w.after(Step::BeginPeek).has(j) && w.after(Step::BeginPeek).ops[j]
                == w.ops[j],
        w.can(Step::EndPeek(i)) ==> {
            &&& w.after(Step::EndPeek(i)).bell == w.bell
            &&& w.after(Step::EndPeek(i)).losses == w.losses
            &&& w.after(Step::EndPeek(i)).rung == w.rung
            &&& forall|j: nat| #[trigger]
                w.has(j) && j != i ==> w.after(Step::EndPeek(i)).has(j) && w.after(
                    Step::EndPeek(i),
                ).ops[j] == w.ops[j]
        },
{
}

/// Only a lost write attempt registers a callback: one that wins discards its
/// callback, and one whose callback could not be built leaves none.
pub proof fn law_only_losers_register(w: World, step: Step)
    requires
        w.can(step),
    ensures
        w.after(step).losses.len() == w.losses.len() + (if step is SettleLoss {
            1int
        } else {
            0
        }),
        step is SettleLoss ==> w.after(step).bell.callbacks == w.bell.callbacks.push(
            w.losses.len(),
        ),
        step !is SettleLoss && step !is Take ==> w.after(step).bell.callbacks == w.bell.callbacks,
{
}

/// No wakeup is missed: the last unresolved write attempt can only go by being
/// resolved, and the door can only open by a flush reopening it. These are the
/// steps that wake whoever waits: see [`LockStateInner::decrement_locking`] and
/// [`LockStateInner::leave_drain`].
///
/// [`LockStateInner::decrement_locking`]: crate::inner::LockStateInner::decrement_locking
/// [`LockStateInner::leave_drain`]: crate::inner::LockStateInner::leave_drain
pub proof fn law_no_wakeup_is_missed(w: World, step: Step)
    requires
        w.can(step),
    ensures
        w.bell.has_unresolved() && !w.after(step).bell.has_unresolved() ==> step is SettleWin
            || step is SettleLoss || step is AbandonLoss,
        w.bell.door_closed() && !w.after(step).bell.door_closed() ==> step is Reopen,
{
}

/// A write attempt waits for flushes and for nothing else: whoever holds the lock,
/// it can begin as soon as no flush is under way. A flush that runs its callbacks
/// is no longer under way, so a callback may use the lock like anybody else.
pub proof fn law_attempts_wait_for_flushes_only(run: Seq<Step>)
    requires
        possible(run),
        reached(run).bell.locking < u64::MAX,
    ensures
        reached(run).can(Step::BeginTry) <==> forall|i: nat|
            reached(run).has(i) ==> !(#[trigger] reached(run).ops[i]).draining(),
{
    law_counters_tell_the_truth(run);
}

/// Running a callback takes no lock and gives none back: it is a notification.
pub proof fn law_ringing_leaves_the_lock_alone(w: World, i: nat)
    requires
        w.can(Step::Ring(i)),
    ensures
        w.after(Step::Ring(i)).holders() == w.holders(),
        w.after(Step::Ring(i)).bell == w.bell,
{
    let a = w.after(Step::Ring(i));
    assert(a.holders() =~= w.holders());
}

/// Operations move through the phases that the executable [`Operation`] moves
/// through, and end where it ends. A step is one phase on, but for the three that lie
/// in one critical section each: giving the lock back without a flush, taking the
/// queue, and reopening the door.
///
/// [`Operation`]: crate::inner::Operation
pub proof fn law_operations_follow_the_phases(w: World, step: Step, i: nat)
    requires
        w.numbered(),
        w.can(step),
        w.has(i),
        w.ops[i] !is Peeks,
    ensures
        ({
            let before = w.ops[i].phase();
            let after = if w.after(step).has(i) {
                w.after(step).ops[i].phase()
            } else {
                Phase::Over
            };
            ||| after == before
            ||| before.leads_to(after)
            ||| before.leads_to(Phase::Leaves) && Phase::Leaves.leads_to(after)
            ||| before.leads_to(Phase::Took) && Phase::Took.leads_to(after)
            ||| before.leads_to(Phase::Reopened) && Phase::Reopened.leads_to(after)
        }),
{
}

} // verus!

//! Why the bell's own work always comes to an end.
use vstd::prelude::*;

use crate::protocol::{possible, reached, Op, Step, World};
use crate::soundness::{lemma_count_positive, lemma_reached_sound};

verus! {

impl Op {
    /// Is the bell's own business: nobody has to let go of a guard for it to
    /// move on.
    pub open spec fn in_progress(self) -> bool {
        self.unresolved() || self.draining() || self is Rings
    }

    /// How many steps are at most before it, counting those that its callback
    /// will take.
    pub open spec fn work(self) -> nat {
        match self {
            Op::Tries => 4,
            Op::Won => 1,
            Op::Lost { .. } => 2,
            Op::Flushes { .. } => 4,
            Op::Took { batch, .. } => 3 + batch.len(),
            Op::Released { batch, .. } => 2 + batch.len(),
            Op::Rings { batch, .. } => 1 + batch.len(),
            _ => 0,
        }
    }
}

impl Step {
    /// Moves one of the bell's own operations on.
    pub open spec fn is_progress(self) -> bool {
        match self {
            Step::Win(_) | Step::SettleWin(_) | Step::Lose(_) | Step::SettleLoss(_) => true,
            Step::Take(_) | Step::GiveBack(_) | Step::Reopen(_) => true,
            Step::Ring(_) | Step::Finish(_) => true,
            _ => false,
        }
    }
}

/// The work of the operations numbered below `end`.
pub open spec fn work_below(ops: Map<nat, Op>, end: nat) -> nat
    decreases end,
{
    if end == 0 {
        0
    } else {
        let last = (end - 1) as nat;
        work_below(ops, last) + (if ops.dom().contains(last) {
            ops[last].work()
        } else {
            0
        })
    }
}

impl World {
    /// How many steps of the bell's own are left at most, if nobody begins or
    /// releases anything meanwhile.
    pub open spec fn work_left(self) -> nat {
        work_below(self.ops, self.begun) + self.bell.callbacks.len()
    }

    /// Nothing of the bell's own is left to do.
    pub open spec fn settled(self) -> bool {
        forall|i: nat| self.has(i) ==> !(#[trigger] self.ops[i]).in_progress()
    }
}

/// Two sets of operations that differ in one only differ in its work.
proof fn lemma_work_differs(before: Map<nat, Op>, after: Map<nat, Op>, end: nat, m: nat)
    requires
        before.dom().contains(m),
        forall|i: nat|
            i != m ==> (#[trigger] before.dom().contains(i) <==> after.dom().contains(i)),
        forall|i: nat| i != m && before.dom().contains(i) ==> #[trigger] before[i] == after[i],
    ensures
        m < end ==> work_below(after, end) == work_below(before, end) - before[m].work() + (
        if after.dom().contains(m) {
            after[m].work() as int
        } else {
            0
        }),
        m >= end ==> work_below(after, end) == work_below(before, end),
    decreases end,
{
    if end > 0 {
        let last = (end - 1) as nat;
        lemma_work_differs(before, after, last, m);
        if last != m {
            assert(before.dom().contains(last) <==> after.dom().contains(last));
        }
    }
}

/// Every step of the bell's own leaves less for it to do.
pub proof fn law_progress_uses_up_work(run: Seq<Step>, step: Step)
    requires
        possible(run),
        reached(run).can(step),
        step.is_progress(),
    ensures
        reached(run).after(step).work_left() < reached(run).work_left(),
{
    lemma_reached_sound(run);
    let w = reached(run);
    let a = w.after(step);
    let m = match step {
        Step::Win(i) => i,
        Step::SettleWin(i) => i,
        Step::Lose(i) => i,
        Step::SettleLoss(i) => i,
        Step::Take(i) => i,
        Step::GiveBack(i) => i,
        Step::Reopen(i) => i,
        Step::Ring(i) => i,
        Step::Finish(i) => i,
        _ => 0,
    };
    assert(w.has(m));
    lemma_work_differs(w.ops, a.ops, w.begun, m);
}

/// The bell never deadlocks: as long as it has work of its own, some step of its
/// own can happen.
pub proof fn law_the_bell_never_deadlocks(run: Seq<Step>) -> (step: Step)
    requires
        possible(run),
        !reached(run).settled(),
    ensures
        step.is_progress(),
        reached(run).can(step),
{
    lemma_reached_sound(run);
    let w = reached(run);
    let unresolved = |op: Op| op.unresolved();
    lemma_count_positive(w.ops, unresolved);
    if w.bell.has_unresolved() {
        let i = choose|i: nat| w.ops.dom().contains(i) && unresolved(#[trigger] w.ops[i]);
        assert(w.has(i) && w.ops[i].unresolved());
        if w.ops[i] is Tries {
            if w.free() {
                Step::Win(i)
            } else {
                let j = choose|j: nat| w.has(j) && (#[trigger] w.ops[j]).occupies();
                assert(w.contended());
                Step::Lose(i)
            }
        } else if w.ops[i] is Won {
            Step::SettleWin(i)
        } else {
            Step::SettleLoss(i)
        }
    } else {
        let i = choose|i: nat| w.has(i) && (#[trigger] w.ops[i]).in_progress();
        assert(!w.ops[i].unresolved()) by {
            if w.ops[i].unresolved() {
                assert(unresolved(w.ops[i]));
            }
        }
        if w.ops[i] is Flushes {
            Step::Take(i)
        } else if w.ops[i] is Took {
            Step::GiveBack(i)
        } else if w.ops[i] is Released {
            Step::Reopen(i)
        } else if w.ops[i].batch().len() > 0 {
            Step::Ring(i)
        } else {
            Step::Finish(i)
        }
    }
}

/// The bell always gets done: from wherever a run leads, steps of its own lead
/// on to where every flush is over, every callback that was taken has run, every
/// write attempt is resolved, and the door is open.
pub proof fn law_the_bell_gets_done(run: Seq<Step>) -> (more: Seq<Step>)
    requires
        possible(run),
    ensures
        possible(run + more),
        forall|p: int| 0 <= p < more.len() ==> (#[trigger] more[p]).is_progress(),
        more.len() <= reached(run).work_left(),
        reached(run + more).settled(),
        !reached(run + more).bell.door_closed(),
        !reached(run + more).bell.has_unresolved(),
        forall|i: nat, n: nat| !(#[trigger] reached(run + more).carries(i, n)),
    decreases reached(run).work_left(),
{
    let w = reached(run);
    if w.settled() {
        let more = Seq::<Step>::empty();
        assert(run + more =~= run);
        lemma_reached_sound(run);
        lemma_count_positive(w.ops, |op: Op| op.draining());
        lemma_count_positive(w.ops, |op: Op| op.unresolved());
        assert forall|i: nat, n: nat| !(#[trigger] w.carries(i, n)) by {
            if w.carries(i, n) {
                assert(w.ops[i].in_progress());
            }
        }
        more
    } else {
        let step = law_the_bell_never_deadlocks(run);
        law_progress_uses_up_work(run, step);
        let next = run.push(step);
        assert(next.drop_last() =~= run);
        let rest = law_the_bell_gets_done(next);
        let more = seq![step] + rest;
        assert(run + more =~= next + rest);
        more
    }
}

} // verus!

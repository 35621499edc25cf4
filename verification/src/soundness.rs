//! What every reachable [`World`] has in common, and why.
use vstd::prelude::*;

use crate::protocol::{possible, reached, Loss, Op, Step, World};

verus! {

/// How many of `ops` are in `class`.
pub open spec fn count(ops: Map<nat, Op>, class: spec_fn(Op) -> bool) -> nat {
    ops.dom().filter(|i: nat| class(ops[i])).len()
}

impl World {
    /// Operations are finitely many, and numbered in the order of their beginning.
    pub open spec fn numbered(self) -> bool {
        &&& self.ops.dom().finite()
        &&& forall|i: nat| #[trigger] self.has(i) ==> i < self.begun
    }

    /// The bell's counters are what they say they are.
    pub open spec fn tallied(self) -> bool {
        &&& self.bell.readers == count(self.ops, |op: Op| op.counted_reader())
        &&& self.bell.locking == count(self.ops, |op: Op| op.unresolved())
        &&& self.bell.draining == count(self.ops, |op: Op| op.draining())
    }

    /// Whoever has the lock to itself is the only one who has it.
    pub open spec fn exclusive(self) -> bool {
        forall|i: nat, j: nat|
            self.has(i) && self.has(j) && i != j && (#[trigger] self.ops[i]).excludes()
                ==> !(#[trigger] self.ops[j]).occupies()
    }

    /// From the moment the queue is taken until the door reopens, nothing can be
    /// queued.
    pub open spec fn sealed(self) -> bool {
        forall|i: nat|
            self.has(i) && (#[trigger] self.ops[i]).took() ==> self.bell.locking == 0
                && self.bell.callbacks.len() == 0
    }

    /// Some callback that lost to a guard is queued or about to be.
    pub open spec fn owes(self) -> bool {
        ||| exists|k: int|
            0 <= k < self.bell.callbacks.len() && self.losses[(
            #[trigger] self.bell.callbacks[k]) as int].guarded
        ||| exists|i: nat| self.has(i) && (#[trigger] self.ops[i]) is Lost && self.ops[i]->loss.guarded
    }

    /// Whoever is owed a ring will get one: somebody has a flush before it.
    pub open spec fn answered(self) -> bool {
        self.owes() ==> exists|i: nat| self.has(i) && (#[trigger] self.ops[i]).will_flush()
    }

    /// How many callbacks have been taken out of the queue.
    pub open spec fn taken(self) -> int {
        self.losses.len() - self.bell.callbacks.len()
    }

    /// The queue holds the latest registrations, oldest first.
    pub open spec fn queued_in_order(self) -> bool {
        &&& self.taken() >= 0
        &&& forall|k: int|
            0 <= k < self.bell.callbacks.len() ==> #[trigger] self.bell.callbacks[k] == self.taken()
                + k
    }

    /// Operation `i` has taken callback `n` and not run it yet.
    pub open spec fn carries(self, i: nat, n: nat) -> bool {
        self.has(i) && self.ops[i].batch().contains(n)
    }

    /// Every callback that left the queue has run or is carried, and only once.
    pub open spec fn delivered_once(self) -> bool {
        &&& self.rung.no_duplicates()
        &&& forall|n: nat| #[trigger] self.rung.contains(n) ==> n < self.taken()
        &&& forall|i: nat, n: nat| #[trigger]
            self.carries(i, n) ==> n < self.taken() && !self.rung.contains(n)
        &&& forall|i: nat, j: nat, n: nat| #[trigger]
            self.carries(i, n) && #[trigger] self.carries(j, n) ==> i == j
        &&& forall|n: nat|
            n < self.taken() ==> #[trigger] self.rung.contains(n) || exists|i: nat|
                self.carries(i, n)
    }

    /// Each flush has its callbacks in registration order.
    pub open spec fn carried_in_order(self) -> bool {
        forall|i: nat| #[trigger] self.has(i) ==> increasing(self.ops[i].batch())
    }

    /// A guard that turned a write attempt away has held the lock, so it does
    /// not come to hold it again.
    pub open spec fn recorded(self, loss: Loss) -> bool {
        forall|h: nat| #[trigger]
            loss.holders.contains(h) ==> h < self.begun && (self.has(h) ==> self.ops[h].has_held())
    }

    /// No guard that turned a write attempt away holds the lock, except `i`.
    pub open spec fn cleared_except(self, loss: Loss, i: nat) -> bool {
        forall|h: nat| #[trigger] loss.holders.contains(h) && h != i ==> !self.holds(h)
    }

    /// Guard `i` was among those that turned a write attempt away, or none of
    /// them holds the lock any more.
    pub open spec fn cleared_for(self, loss: Loss, i: nat) -> bool {
        loss.holders.contains(i) || self.cleared_except(loss, i)
    }

    /// Every loss is recorded.
    pub open spec fn losses_recorded(self) -> bool {
        &&& forall|n: int| 0 <= n < self.losses.len() ==> self.recorded(#[trigger] self.losses[n])
        &&& forall|i: nat|
            self.has(i) && (#[trigger] self.ops[i]) is Lost ==> self.recorded(self.ops[i]->loss)
    }

    /// A reader that flushes has been in the way of whatever it may take, or
    /// nobody who was is any more.
    pub open spec fn flushes_cleared(self) -> bool {
        forall|i: nat|
            self.has(i) && (#[trigger] self.ops[i]) is Flushes && !self.ops[i].excludes() ==> {
                &&& forall|k: int|
                    0 <= k < self.bell.callbacks.len() ==> self.cleared_for(
                        self.losses[(#[trigger] self.bell.callbacks[k]) as int],
                        i,
                    )
                &&& forall|j: nat|
                    self.has(j) && (#[trigger] self.ops[j]) is Lost ==> self.cleared_for(
                        self.ops[j]->loss,
                        i,
                    )
            }
    }

    /// The same of the callbacks that a flush has taken; a writer that flushes
    /// leaves nobody in the way but itself.
    pub open spec fn batches_cleared(self) -> bool {
        forall|i: nat, n: nat| #[trigger]
            self.carries(i, n) ==> if self.ops[i].was_exclusive() {
                self.cleared_except(self.losses[n as int], i)
            } else {
                self.cleared_for(self.losses[n as int], i)
            }
    }
}

impl Op {
    /// Holds the lock as a guard does, or has done so.
    pub open spec fn has_held(self) -> bool {
        self.holds() || self is Released || self is Rings
    }

    /// Releases an exclusive lock.
    pub open spec fn was_exclusive(self) -> bool {
        match self {
            Op::Took { exclusive, .. } => exclusive,
            Op::Released { exclusive, .. } => exclusive,
            Op::Rings { exclusive, .. } => exclusive,
            _ => false,
        }
    }
}

/// `numbers` are in increasing order.
pub open spec fn increasing(numbers: Seq<nat>) -> bool {
    forall|k: int, l: int| 0 <= k < l < numbers.len() ==> #[trigger] numbers[k] < #[trigger] numbers[l]
}

proof fn lemma_count_insert(ops: Map<nat, Op>, i: nat, op: Op, class: spec_fn(Op) -> bool)
    requires
        ops.dom().finite(),
    ensures
        count(ops.insert(i, op), class) == count(ops, class) - (if ops.dom().contains(i) && class(
            ops[i],
        ) {
            1int
        } else {
            0
        }) + (if class(op) {
            1int
        } else {
            0
        }),
{
    let before = ops.dom().filter(|j: nat| class(ops[j]));
    let after = ops.insert(i, op).dom().filter(|j: nat| class(ops.insert(i, op)[j]));
    if class(op) {
        assert(after =~= before.insert(i));
    } else {
        assert(after =~= before.remove(i));
    }
}

proof fn lemma_count_remove(ops: Map<nat, Op>, i: nat, class: spec_fn(Op) -> bool)
    requires
        ops.dom().finite(),
        ops.dom().contains(i),
    ensures
        count(ops.remove(i), class) == count(ops, class) - (if class(ops[i]) {
            1int
        } else {
            0
        }),
{
    let before = ops.dom().filter(|j: nat| class(ops[j]));
    let after = ops.remove(i).dom().filter(|j: nat| class(ops.remove(i)[j]));
    assert(after =~= before.remove(i));
}

/// A count is positive exactly if there is somebody to count.
pub proof fn lemma_count_positive(ops: Map<nat, Op>, class: spec_fn(Op) -> bool)
    requires
        ops.dom().finite(),
    ensures
        count(ops, class) > 0 <==> exists|i: nat|
            ops.dom().contains(i) && class(#[trigger] ops[i]),
{
    let counted = ops.dom().filter(|j: nat| class(ops[j]));
    if counted.len() > 0 {
        let i = counted.choose();
        assert(counted.contains(i));
        assert(class(ops[i]));
    }
    if exists|i: nat| ops.dom().contains(i) && class(#[trigger] ops[i]) {
        let i = choose|i: nat| ops.dom().contains(i) && class(#[trigger] ops[i]);
        assert(counted.contains(i));
        assert(counted.len() > 0);
    }
}

/// The operation that `step` moves, or that it begins.
spec fn moved(w: World, step: Step) -> nat {
    match step {
        Step::AcquireShared(i) => i,
        Step::AcquireExclusive(i) => i,
        Step::EndPeek(i) => i,
        Step::Win(i) => i,
        Step::SettleWin(i) => i,
        Step::Lose(i) => i,
        Step::SettleLoss(i) => i,
        Step::AbandonLoss(i) => i,
        Step::ReleaseShared(i) => i,
        Step::ReleaseExclusive(i) => i,
        Step::Take(i) => i,
        Step::GiveBack(i) => i,
        Step::Reopen(i) => i,
        Step::Ring(i) => i,
        Step::Finish(i) => i,
        _ => w.begun,
    }
}

/// A step touches one operation: it is replaced, or it is over.
proof fn lemma_one_moves(w: World, step: Step)
    requires
        w.numbered(),
        w.can(step),
    ensures
        w.after(step).numbered(),
        w.begun <= w.after(step).begun,
        moved(w, step) < w.after(step).begun,
        w.has(moved(w, step)) || moved(w, step) == w.begun,
        w.after(step).has(moved(w, step)) ==> w.after(step).ops == w.ops.insert(
            moved(w, step),
            w.after(step).ops[moved(w, step)],
        ),
        !w.after(step).has(moved(w, step)) ==> w.has(moved(w, step)) && w.after(step).ops
            == w.ops.remove(moved(w, step)),
{
    let m = moved(w, step);
    let a = w.after(step);
    if a.has(m) {
        assert(a.ops =~= w.ops.insert(m, a.ops[m]));
    } else {
        assert(a.ops =~= w.ops.remove(m));
    }
    assert forall|i: nat| #[trigger] a.has(i) implies i < a.begun by {
        assert(w.has(i) || i == m);
    }
}

proof fn lemma_tallied_kept(w: World, step: Step)
    requires
        w.numbered(),
        w.tallied(),
        w.can(step),
    ensures
        w.after(step).tallied(),
{
    lemma_one_moves(w, step);
    let m = moved(w, step);
    let a = w.after(step);
    let readers = |op: Op| op.counted_reader();
    let unresolved = |op: Op| op.unresolved();
    let draining = |op: Op| op.draining();
    lemma_count_positive(w.ops, readers);
    lemma_count_positive(w.ops, unresolved);
    lemma_count_positive(w.ops, draining);
    if a.has(m) {
        lemma_count_insert(w.ops, m, a.ops[m], readers);
        lemma_count_insert(w.ops, m, a.ops[m], unresolved);
        lemma_count_insert(w.ops, m, a.ops[m], draining);
    } else {
        lemma_count_remove(w.ops, m, readers);
        lemma_count_remove(w.ops, m, unresolved);
        lemma_count_remove(w.ops, m, draining);
    }
    if w.has(m) {
        assert(readers(w.ops[m]) ==> count(w.ops, readers) > 0);
        assert(unresolved(w.ops[m]) ==> count(w.ops, unresolved) > 0);
        assert(draining(w.ops[m]) ==> count(w.ops, draining) > 0);
    }
}

proof fn lemma_exclusive_kept(w: World, step: Step)
    requires
        w.numbered(),
        w.exclusive(),
        w.can(step),
    ensures
        w.after(step).exclusive(),
{
    lemma_one_moves(w, step);
    let m = moved(w, step);
    let a = w.after(step);
    assert forall|i: nat, j: nat|
        a.has(i) && a.has(j) && i != j && (#[trigger] a.ops[i]).excludes() implies !(
    #[trigger] a.ops[j]).occupies() by {
        if i != m {
            assert(w.has(i) && a.ops[i] == w.ops[i]);
        }
        if j != m {
            assert(w.has(j) && a.ops[j] == w.ops[j]);
        }
    }
}

proof fn lemma_sealed_kept(w: World, step: Step)
    requires
        w.numbered(),
        w.tallied(),
        w.sealed(),
        w.can(step),
    ensures
        w.after(step).sealed(),
{
    lemma_one_moves(w, step);
    let m = moved(w, step);
    let a = w.after(step);
    lemma_count_positive(w.ops, |op: Op| op.draining());
    lemma_count_positive(w.ops, |op: Op| op.unresolved());
    assert forall|i: nat| a.has(i) && (#[trigger] a.ops[i]).took() implies a.bell.locking == 0
        && a.bell.callbacks.len() == 0 by {
        if i != m {
            assert(w.has(i) && a.ops[i] == w.ops[i]);
            assert((|op: Op| op.draining())(w.ops[i]));
        }
        if w.has(m) {
            assert((|op: Op| op.unresolved())(w.ops[m]) == w.ops[m].unresolved());
        }
    }
}

proof fn lemma_queued_in_order_kept(w: World, step: Step)
    requires
        w.queued_in_order(),
        w.can(step),
    ensures
        w.after(step).queued_in_order(),
{
}

proof fn lemma_answered_kept(w: World, step: Step)
    requires
        w.numbered(),
        w.tallied(),
        w.sealed(),
        w.queued_in_order(),
        w.answered(),
        w.can(step),
    ensures
        w.after(step).answered(),
{
    lemma_one_moves(w, step);
    let m = moved(w, step);
    let a = w.after(step);
    let unresolved = |op: Op| op.unresolved();
    let draining = |op: Op| op.draining();
    let readers = |op: Op| op.counted_reader();
    lemma_tallied_kept(w, step);
    lemma_count_positive(w.ops, unresolved);
    lemma_count_positive(a.ops, unresolved);
    lemma_count_positive(w.ops, draining);
    lemma_count_positive(a.ops, readers);
    assert forall|i: nat| w.has(i) && (#[trigger] w.ops[i]).unresolved() implies w.bell.locking
        > 0 by {
        assert(unresolved(w.ops[i]));
    }
    assert forall|i: nat| a.has(i) && (#[trigger] a.ops[i]).unresolved() implies a.bell.locking
        > 0 by {
        assert(unresolved(a.ops[i]));
    }
    if a.owes() {
        if step is Lose && a.ops[m]->loss.guarded {
            // The attempt is unresolved, so nobody who holds has taken the queue.
            let i = choose|i: nat|
                w.has(i) && ((#[trigger] w.ops[i]).holds() || w.ops[i].waits());
            assert(a.has(i) && a.ops[i].will_flush());
        } else {
            assert(w.owes()) by {
                if exists|k: int|
                    0 <= k < a.bell.callbacks.len() && a.losses[(
                    #[trigger] a.bell.callbacks[k]) as int].guarded {
                    let k = choose|k: int|
                        0 <= k < a.bell.callbacks.len() && a.losses[(
                        #[trigger] a.bell.callbacks[k]) as int].guarded;
                    if k < w.bell.callbacks.len() {
                        assert(a.bell.callbacks[k] == w.bell.callbacks[k]);
                        assert(w.losses[w.bell.callbacks[k] as int].guarded);
                    } else {
                        assert(step is SettleLoss);
                        assert(w.ops[m]->loss.guarded);
                    }
                } else {
                    let i = choose|i: nat|
                        a.has(i) && (#[trigger] a.ops[i]) is Lost && a.ops[i]->loss.guarded;
                    assert(i != m);
                    assert(w.has(i) && w.ops[i] == a.ops[i]);
                }
            }
            if step is ReleaseShared && !a.has(m) {
                if a.bell.readers > 0 {
                    let i = choose|i: nat| a.ops.dom().contains(i) && readers(#[trigger] a.ops[i]);
                    assert(a.has(i) && a.ops[i].will_flush());
                } else {
                    // A flush is under way, and since something is owed it has
                    // not taken the queue yet.
                    assert(w.bell.draining > 0);
                    let i = choose|i: nat| w.ops.dom().contains(i) && draining(#[trigger] w.ops[i]);
                    assert(w.ops[i] is Flushes);
                    assert(a.has(i) && a.ops[i].will_flush());
                }
            } else {
                let i = choose|i: nat| w.has(i) && (#[trigger] w.ops[i]).will_flush();
                assert(!(step is Take));
                assert(a.has(i) && a.ops[i].will_flush());
            }
        }
    }
}

/// What a step does to the batches that are carried.
proof fn lemma_carries(w: World, step: Step, i: nat, n: nat)
    requires
        w.numbered(),
        w.carried_in_order(),
        w.can(step),
    ensures
        step is Take && i == moved(w, step) ==> (w.after(step).carries(i, n)
            <==> w.bell.callbacks.contains(n)),
        step is Ring && i == moved(w, step) ==> (w.after(step).carries(i, n) <==> w.carries(i, n)
            && n != w.ops[i].batch().first()),
        (step !is Take && step !is Ring) || i != moved(w, step) ==> (w.after(step).carries(i, n)
            <==> w.carries(i, n)),
{
    lemma_one_moves(w, step);
    let m = moved(w, step);
    let a = w.after(step);
    if step is Ring && i == m {
        let batch = w.ops[m].batch();
        let rest = a.ops[m].batch();
        assert(rest == batch.drop_first());
        assert(increasing(batch)) by {
            assert(w.has(m));
        }
        if rest.contains(n) {
            let k = choose|k: int| 0 <= k < rest.len() && rest[k] == n;
            assert(batch[k + 1] == n);
            assert(batch[0] < batch[k + 1]);
        }
        if batch.contains(n) && n != batch.first() {
            let k = choose|k: int| 0 <= k < batch.len() && batch[k] == n;
            assert(rest[k - 1] == n);
        }
    }
    if i != m {
        assert(a.has(i) == w.has(i));
        if w.has(i) {
            assert(a.ops[i] == w.ops[i]);
        }
    } else if w.has(m) && a.has(m) && step !is Take && step !is Ring {
        assert(a.ops[m].batch() == w.ops[m].batch());
    }
}

proof fn lemma_carried_in_order_kept(w: World, step: Step)
    requires
        w.numbered(),
        w.queued_in_order(),
        w.carried_in_order(),
        w.can(step),
    ensures
        w.after(step).carried_in_order(),
{
    lemma_one_moves(w, step);
    let m = moved(w, step);
    let a = w.after(step);
    assert forall|i: nat| #[trigger] a.has(i) implies increasing(a.ops[i].batch()) by {
        if i != m {
            assert(w.has(i) && a.ops[i] == w.ops[i]);
        } else if step is Take {
            assert(a.ops[i].batch() == w.bell.callbacks);
        } else if w.has(m) {
            assert(increasing(w.ops[m].batch()));
        }
    }
}

proof fn lemma_delivered_once_kept(w: World, step: Step)
    requires
        w.numbered(),
        w.queued_in_order(),
        w.carried_in_order(),
        w.delivered_once(),
        w.can(step),
    ensures
        w.after(step).delivered_once(),
{
    lemma_one_moves(w, step);
    let m = moved(w, step);
    let a = w.after(step);
    if step is Ring {
        let first = w.ops[m].batch().first();
        assert(w.ops[m].batch().contains(first));
        assert(w.carries(m, first));
        assert forall|n: nat| #[trigger]
            a.rung.contains(n) <==> w.rung.contains(n) || n == first by {
            if a.rung.contains(n) {
                let k = choose|k: int| 0 <= k < a.rung.len() && a.rung[k] == n;
                if k < w.rung.len() {
                    assert(w.rung[k] == n);
                }
            }
            if w.rung.contains(n) {
                let k = choose|k: int| 0 <= k < w.rung.len() && w.rung[k] == n;
                assert(a.rung[k] == n);
            }
            assert(a.rung[w.rung.len() as int] == first);
        }
        assert forall|k: int, l: int|
            0 <= k < a.rung.len() && 0 <= l < a.rung.len() && k != l implies #[trigger] a.rung[k]
            != #[trigger] a.rung[l] by {
            assert(k < w.rung.len() ==> w.rung.contains(a.rung[k]));
            assert(l < w.rung.len() ==> w.rung.contains(a.rung[l]));
        }
    }
    if step is Take {
        assert forall|n: nat| #[trigger]
            w.bell.callbacks.contains(n) <==> w.taken() <= n < w.losses.len() by {
            if w.taken() <= n < w.losses.len() {
                assert(w.bell.callbacks[n - w.taken()] == n);
            }
        }
    }
    assert forall|i: nat, n: nat| #[trigger] a.carries(i, n) implies n < a.taken()
        && !a.rung.contains(n) by {
        lemma_carries(w, step, i, n);
        lemma_carries(w, step, m, n);
        assert(w.rung.contains(n) ==> n < w.taken());
    }
    assert forall|i: nat, j: nat, n: nat| #[trigger]
        a.carries(i, n) && #[trigger] a.carries(j, n) implies i == j by {
        lemma_carries(w, step, i, n);
        lemma_carries(w, step, j, n);
    }
    assert forall|n: nat| n < a.taken() implies #[trigger] a.rung.contains(n) || exists|i: nat|
        a.carries(i, n) by {
        lemma_carries(w, step, m, n);
        if n >= w.taken() {
            assert(a.carries(m, n));
        } else if !w.rung.contains(n) {
            let i = choose|i: nat| w.carries(i, n);
            lemma_carries(w, step, i, n);
            assert(a.carries(i, n) || a.rung.contains(n));
        }
    }
}

/// Who has held the lock does not come to hold it again.
proof fn lemma_recorded(w: World, step: Step, loss: Loss)
    requires
        w.numbered(),
        w.recorded(loss),
        w.can(step),
    ensures
        w.after(step).recorded(loss),
        forall|h: nat| #[trigger]
            loss.holders.contains(h) && w.after(step).holds(h) ==> w.holds(h),
        forall|i: nat| w.cleared_except(loss, i) ==> #[trigger] w.after(step).cleared_except(loss, i),
        forall|i: nat| w.cleared_for(loss, i) ==> #[trigger] w.after(step).cleared_for(loss, i),
{
    lemma_one_moves(w, step);
    let m = moved(w, step);
    let a = w.after(step);
    assert forall|h: nat| #[trigger] loss.holders.contains(h) implies h < a.begun && (a.has(h)
        ==> a.ops[h].has_held()) && (a.holds(h) ==> w.holds(h)) by {
        if h != m && a.has(h) {
            assert(w.has(h) && a.ops[h] == w.ops[h]);
        }
    }
}

proof fn lemma_losses_recorded_kept(w: World, step: Step)
    requires
        w.numbered(),
        w.losses_recorded(),
        w.can(step),
    ensures
        w.after(step).losses_recorded(),
{
    lemma_one_moves(w, step);
    let m = moved(w, step);
    let a = w.after(step);
    assert forall|n: int| 0 <= n < a.losses.len() implies a.recorded(#[trigger] a.losses[n]) by {
        if n < w.losses.len() {
            assert(a.losses[n] == w.losses[n]);
        } else {
            assert(a.losses[n] == w.ops[m]->loss);
        }
        lemma_recorded(w, step, a.losses[n]);
    }
    assert forall|i: nat| a.has(i) && (#[trigger] a.ops[i]) is Lost implies a.recorded(
        a.ops[i]->loss,
    ) by {
        if i != m {
            assert(w.has(i) && a.ops[i] == w.ops[i]);
            lemma_recorded(w, step, w.ops[i]->loss);
        } else {
            let loss = a.ops[m]->loss;
            assert forall|h: nat| #[trigger] loss.holders.contains(h) implies h < a.begun && (
            a.has(h) ==> a.ops[h].has_held()) by {
                assert(w.has(h) && w.ops[h].holds());
                assert(h != m);
            }
        }
    }
}

proof fn lemma_flushes_cleared_kept(w: World, step: Step)
    requires
        w.numbered(),
        w.tallied(),
        w.exclusive(),
        w.queued_in_order(),
        w.losses_recorded(),
        w.flushes_cleared(),
        w.can(step),
    ensures
        w.after(step).flushes_cleared(),
{
    lemma_one_moves(w, step);
    let m = moved(w, step);
    let a = w.after(step);
    assert forall|i: nat|
        a.has(i) && (#[trigger] a.ops[i]) is Flushes && !a.ops[i].excludes() implies {
        &&& forall|k: int|
            0 <= k < a.bell.callbacks.len() ==> a.cleared_for(
                a.losses[(#[trigger] a.bell.callbacks[k]) as int],
                i,
            )
        &&& forall|j: nat|
            a.has(j) && (#[trigger] a.ops[j]) is Lost ==> a.cleared_for(a.ops[j]->loss, i)
    } by {
        if i == m {
            // The reader that begins a flush is the only guard left.
            assert(step is ReleaseShared && w.bell.last_reader_drains());
            lemma_sole_guard(w, m);
            assert forall|loss: Loss| #[trigger] a.cleared_except(loss, m) by {
                assert forall|h: nat| #[trigger] loss.holders.contains(h) && h != m implies !a.holds(
                    h,
                ) by {
                    assert(!w.holds(h));
                }
            }
        } else {
            assert(w.has(i) && w.ops[i] == a.ops[i]);
            assert forall|k: int| 0 <= k < a.bell.callbacks.len() implies a.cleared_for(
                a.losses[(#[trigger] a.bell.callbacks[k]) as int],
                i,
            ) by {
                if k < w.bell.callbacks.len() {
                    assert(a.bell.callbacks[k] == w.bell.callbacks[k]);
                    lemma_recorded(w, step, w.losses[w.bell.callbacks[k] as int]);
                } else {
                    assert(step is SettleLoss && w.ops[m] is Lost);
                    assert(a.bell.callbacks[k] == w.losses.len());
                    lemma_recorded(w, step, w.ops[m]->loss);
                }
            }
            assert forall|j: nat| a.has(j) && (#[trigger] a.ops[j]) is Lost implies a.cleared_for(
                a.ops[j]->loss,
                i,
            ) by {
                if j != m {
                    assert(w.has(j) && w.ops[j] == a.ops[j]);
                    lemma_recorded(w, step, w.ops[j]->loss);
                } else {
                    assert(step is Lose);
                    assert(w.holders().contains(i));
                }
            }
        }
    }
}

/// When the last counted reader leaves and no flush is under way, nobody else
/// holds the lock.
proof fn lemma_sole_guard(w: World, m: nat)
    requires
        w.numbered(),
        w.tallied(),
        w.exclusive(),
        w.has(m),
        w.ops[m] is HoldsShared,
        w.bell.readers <= 1,
        w.bell.draining == 0,
    ensures
        forall|h: nat| #[trigger] w.holds(h) ==> h == m,
{
    let readers = |op: Op| op.counted_reader();
    let draining = |op: Op| op.draining();
    lemma_count_positive(w.ops, draining);
    lemma_count_positive(w.ops.remove(m), readers);
    lemma_count_remove(w.ops, m, readers);
    assert forall|h: nat| #[trigger] w.holds(h) implies h == m by {
        if h != m {
            assert(w.ops.remove(m).dom().contains(h) && w.ops.remove(m)[h] == w.ops[h]);
            assert(draining(w.ops[h]) == w.ops[h].draining());
            assert(readers(w.ops[h]) == w.ops[h].counted_reader());
            assert(w.ops[h].excludes());
            assert(w.ops[m].occupies());
        }
    }
}

proof fn lemma_batches_cleared_kept(w: World, step: Step)
    requires
        w.numbered(),
        w.exclusive(),
        w.queued_in_order(),
        w.carried_in_order(),
        w.delivered_once(),
        w.losses_recorded(),
        w.flushes_cleared(),
        w.batches_cleared(),
        w.can(step),
    ensures
        w.after(step).batches_cleared(),
{
    lemma_one_moves(w, step);
    let m = moved(w, step);
    let a = w.after(step);
    assert forall|i: nat, n: nat| #[trigger] a.carries(i, n) implies if a.ops[i].was_exclusive() {
        a.cleared_except(a.losses[n as int], i)
    } else {
        a.cleared_for(a.losses[n as int], i)
    } by {
        lemma_carries(w, step, i, n);
        if step is Take && i == m {
            let k = choose|k: int|
                0 <= k < w.bell.callbacks.len() && #[trigger] w.bell.callbacks[k] == n;
            let loss = w.losses[n as int];
            lemma_recorded(w, step, loss);
            if w.ops[m].excludes() {
                assert(w.cleared_except(loss, m)) by {
                    assert forall|h: nat| #[trigger]
                        loss.holders.contains(h) && h != m implies !w.holds(h) by {
                        if w.has(h) {
                            assert(!w.ops[h].occupies());
                        }
                    }
                }
            } else {
                assert(w.cleared_for(w.losses[w.bell.callbacks[k] as int], m));
            }
        } else {
            assert(w.carries(i, n));
            assert(n < w.taken());
            assert(a.losses[n as int] == w.losses[n as int]);
            lemma_recorded(w, step, w.losses[n as int]);
            if i != m {
                assert(a.ops[i] == w.ops[i]);
            } else {
                assert(a.ops[i].was_exclusive() == w.ops[i].was_exclusive());
            }
        }
    }
}

impl World {
    /// Everything that holds of a reachable world.
    pub open spec fn sound(self) -> bool {
        &&& self.numbered()
        &&& self.tallied()
        &&& self.exclusive()
        &&& self.sealed()
        &&& self.queued_in_order()
        &&& self.answered()
        &&& self.carried_in_order()
        &&& self.delivered_once()
        &&& self.losses_recorded()
        &&& self.flushes_cleared()
        &&& self.batches_cleared()
    }
}

/// A step keeps a world sound.
pub proof fn lemma_step_keeps_sound(w: World, step: Step)
    requires
        w.sound(),
        w.can(step),
    ensures
        w.after(step).sound(),
{
    lemma_one_moves(w, step);
    lemma_tallied_kept(w, step);
    lemma_exclusive_kept(w, step);
    lemma_sealed_kept(w, step);
    lemma_queued_in_order_kept(w, step);
    lemma_answered_kept(w, step);
    lemma_carried_in_order_kept(w, step);
    lemma_delivered_once_kept(w, step);
    lemma_losses_recorded_kept(w, step);
    lemma_flushes_cleared_kept(w, step);
    lemma_batches_cleared_kept(w, step);
}

/// Whatever the threads do, in whatever order, the world stays sound.
pub proof fn lemma_reached_sound(run: Seq<Step>)
    requires
        possible(run),
    ensures
        reached(run).sound(),
    decreases run.len(),
{
    if run.len() == 0 {
        let w = World::start();
        let nobody = Map::<nat, Op>::empty();
        assert(nobody.dom().filter(|i: nat| nobody[i].counted_reader()) =~= Set::empty());
        lemma_count_positive(nobody, |op: Op| op.counted_reader());
        lemma_count_positive(nobody, |op: Op| op.unresolved());
        lemma_count_positive(nobody, |op: Op| op.draining());
    } else {
        lemma_reached_sound(run.drop_last());
        lemma_step_keeps_sound(reached(run.drop_last()), run.last());
    }
}

} // verus!

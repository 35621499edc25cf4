//! The bookkeeping, one critical section at a time, and the protocol on concrete
//! runs.

use std::sync::{
    atomic::{AtomicU64, Ordering::Relaxed},
    Arc,
};

use lockbell::{
    catch_panic, drain_and_run, Callback, LockState, LockStateInner, Operation, PanicGuard,
};
use parking_lot::{Condvar, Mutex};

fn ring(_: (), callback: Callback) -> ((), Option<()>) {
    callback.call();
    ((), None)
}

fn text(draining: u64, locking: u64, readers: u64) -> String {
    format!(
        "Inner {{ draining: {draining}, locking: {locking}, readers: {readers}, \
         callbacks: \"{{callbacks}}\" }}"
    )
}

fn nothing() -> Callback {
    Callback::new(|| {})
}

#[test]
fn a_new_bell_is_quiet() {
    let inner = LockStateInner::new();
    assert!(!inner.has_unresolved());
    assert!(!inner.door_closed());
    assert_eq!(inner.debug_text(), text(0, 0, 0));
}

#[test]
fn readers_are_counted_in_and_out() {
    let mut inner = LockStateInner::new();
    let mut r1 = inner.enter_shared();
    let mut r2 = inner.enter_shared();
    assert_eq!(inner.debug_text(), text(0, 0, 2));
    r1.acquire(&(), |_| ());
    r2.acquire(&(), |_| ());
    assert!(!inner.leave_shared(&mut r1));
    assert_eq!(inner.debug_text(), text(0, 0, 1));
    assert!(!inner.leave_shared(&mut r2), "nothing is queued");
    assert_eq!(inner.debug_text(), text(0, 0, 0));
}

#[test]
fn an_attempt_that_got_the_lock_is_counted() {
    let mut inner = LockStateInner::new();
    assert!(inner.settle_shared(None::<u64>).is_none());
    assert_eq!(inner.debug_text(), text(0, 0, 0));
    let (_op, held) = inner.settle_shared(Some(5u64)).expect("the attempt succeeded");
    assert_eq!(held, 5);
    assert_eq!(inner.debug_text(), text(0, 0, 1));
}

#[test]
fn only_the_last_reader_flushes() {
    let condvar = Condvar::new();
    let mut inner = LockStateInner::new();
    let (mut r1, ()) = inner.settle_shared(Some(())).unwrap();
    let (mut r2, ()) = inner.settle_shared(Some(())).unwrap();
    let mut t = inner.enter_try();
    assert!(inner.settle_loss(&mut t, nothing(), &condvar));
    assert!(!inner.leave_shared(&mut r1), "another reader is left");
    assert!(inner.leave_shared(&mut r2));
    assert_eq!(inner.debug_text(), text(1, 0, 0));
    assert_eq!(inner.take(&mut r2).len(), 1);
}

#[test]
fn an_unresolved_attempt_makes_the_last_reader_flush() {
    let condvar = Condvar::new();
    let mut inner = LockStateInner::new();
    let (mut r, ()) = inner.settle_shared(Some(())).unwrap();
    let mut t = inner.enter_try();
    assert!(inner.leave_shared(&mut r), "the attempt may still queue its callback");
    assert!(inner.has_unresolved());
    assert!(inner.settle_loss(&mut t, nothing(), &condvar), "the last one wakes the flush");
    assert!(!inner.has_unresolved());
    assert_eq!(inner.take(&mut r).len(), 1);
}

#[test]
fn a_reader_defers_to_a_flush_under_way() {
    let condvar = Condvar::new();
    let mut inner = LockStateInner::new();
    let (mut r, ()) = inner.settle_shared(Some(())).unwrap();
    let mut t = inner.enter_try();
    inner.settle_loss(&mut t, nothing(), &condvar);
    let mut w = Operation::begin_exclusive();
    w.acquire(&(), |_| ());
    inner.enter_drain(&mut w);
    assert!(!inner.leave_shared(&mut r));
    assert_eq!(inner.take(&mut w).len(), 1);
}

#[test]
fn the_door_stays_closed_until_the_last_flush_ends() {
    let condvar = Condvar::new();
    let mut inner = LockStateInner::new();
    let mut w1 = Operation::begin_exclusive();
    w1.acquire(&(), |_| ());
    inner.enter_drain(&mut w1);
    let mut w2 = Operation::begin_exclusive();
    w2.acquire(&(), |_| ());
    inner.enter_drain(&mut w2);
    assert_eq!(inner.debug_text(), text(2, 0, 0));
    let _ = inner.take(&mut w1);
    let _ = inner.take(&mut w2);
    w1.give_back(());
    w2.give_back(());
    assert!(!inner.leave_drain(&mut w1, &condvar), "one flush is left");
    assert!(inner.door_closed());
    assert!(inner.leave_drain(&mut w2, &condvar));
    assert!(!inner.door_closed());
}

#[test]
fn attempts_are_resolved_one_by_one() {
    let condvar = Condvar::new();
    let mut inner = LockStateInner::new();
    let mut t1 = inner.enter_try();
    let mut t2 = inner.enter_try();
    let _t3 = inner.enter_try();
    assert_eq!(inner.debug_text(), text(0, 3, 0));
    assert!(!inner.settle_win(&mut t1, &condvar));
    assert!(!inner.settle_loss(&mut t2, nothing(), &condvar));
    assert!(inner.decrement_locking(&condvar));
    assert_eq!(inner.debug_text(), text(0, 0, 0));
    assert!(inner.decrement_locking(&condvar), "the count does not go below zero");
    assert_eq!(inner.debug_text(), text(0, 0, 0));
}

#[test]
fn a_winner_queues_nothing_and_a_flush_takes_everything() {
    let condvar = Condvar::new();
    let order = Arc::new(Mutex::new(Vec::new()));
    let mut inner = LockStateInner::new();
    for i in 0..3u64 {
        let order = order.clone();
        let mut t = inner.enter_try();
        inner.settle_loss(&mut t, Callback::new(move || order.lock().push(i)), &condvar);
    }
    let mut w = inner.enter_try();
    inner.settle_win(&mut w, &condvar);
    inner.enter_drain(&mut w);
    let batch = inner.take(&mut w);
    assert_eq!(batch.len(), 3);
    for callback in batch {
        callback.call();
    }
    assert_eq!(*order.lock(), vec![0, 1, 2]);

    let mut w = Operation::begin_exclusive();
    w.acquire(&(), |_| ());
    inner.enter_drain(&mut w);
    assert!(inner.take(&mut w).is_empty(), "the queue was taken once");
}

#[test]
fn the_state_counts_like_its_bookkeeping() {
    let state = LockState::new();
    let mut r = state.enter_shared();
    r.acquire(&(), |_| ());
    let mut t1 = state.enter_try();
    let mut t2 = state.enter_try();
    let _t3 = state.enter_try();
    assert_eq!(state.debug_text(), text(0, 3, 1));
    state.settle_loss(&mut t1, nothing());
    state.settle_win(&mut t2);
    state.decrement_locking();
    assert_eq!(state.debug_text(), text(0, 0, 1));
    let (rung, panic) = state.unlock_shared(
        &mut r,
        (),
        0u64,
        |rung, callback: Callback| -> (u64, Option<()>) {
            callback.call();
            (rung + 1, None)
        },
        false,
    );
    assert_eq!(rung, 1);
    assert_eq!(panic, None);
    assert_eq!(state.debug_text(), text(0, 0, 0));
}

#[test]
fn a_shared_attempt_is_made_with_the_bookkeeping_locked() {
    let state = LockState::new();
    let mut seen = String::new();
    let held = state.try_shared(&5u64, |raw: &u64| {
        seen = state.debug_text();
        Some(*raw)
    });
    assert_eq!(seen, "LockState { inner: \"<locked>\" }");
    assert_eq!(held.map(|(_, value)| value), Some(5));
    assert_eq!(state.debug_text(), text(0, 0, 1));
}

#[test]
fn a_flush_rings_with_the_bookkeeping_unlocked() {
    let state = Arc::new(LockState::new());
    let mut r = state.enter_shared();
    r.acquire(&(), |_| ());
    let mut t = state.enter_try();
    state.settle_loss(&mut t, nothing());
    let state2 = state.clone();
    // Enters and leaves the bookkeeping, as a callback may.
    let reenter = move |rung: u64, callback: Callback| -> (u64, Option<()>) {
        let mut inner = state2.enter_shared();
        inner.acquire(&(), |_| ());
        state2.unlock_shared(&mut inner, (), (), ring, false);
        let mut t = state2.enter_try();
        state2.settle_win(&mut t);
        callback.call();
        (rung + 1, None)
    };
    let (rung, _) = state.unlock_shared(&mut r, (), 0, reenter, false);
    assert_eq!(rung, 1);
    assert_eq!(state.debug_text(), text(0, 0, 0));
}

/// Gives the lock back when it is dropped: here, by counting.
struct Held(Arc<AtomicU64>);

impl Drop for Held {
    fn drop(&mut self) {
        self.0.fetch_add(1, Relaxed);
    }
}

#[test]
fn callbacks_are_rung_after_the_release_with_the_door_open() {
    let state = Arc::new(LockState::new());
    let released = Arc::new(AtomicU64::new(0));
    let mut t = state.enter_try();
    state.settle_loss(&mut t, nothing());
    let mut w = Operation::begin_exclusive();
    w.acquire(&(), |_| ());
    let (state2, released2) = (state.clone(), released.clone());
    let watch = move |rung: u64, callback: Callback| -> (u64, Option<()>) {
        assert_eq!(released2.load(Relaxed), 1, "the lock is given back first");
        assert_eq!(state2.debug_text(), text(0, 0, 0), "and the door is open");
        callback.call();
        (rung + 1, None)
    };
    let (rung, _) = state.unlock_exclusive(&mut w, Held(released.clone()), 0, watch, false);
    assert_eq!(rung, 1);
}

#[test]
fn a_reader_that_does_not_flush_gives_the_lock_back_all_the_same() {
    let state = LockState::new();
    let released = Arc::new(AtomicU64::new(0));
    let mut r1 = state.enter_shared();
    let mut r2 = state.enter_shared();
    r1.acquire(&(), |_| ());
    r2.acquire(&(), |_| ());
    state.unlock_shared(&mut r1, Held(released.clone()), (), ring, false);
    assert_eq!(released.load(Relaxed), 1);
    state.unlock_shared(&mut r2, Held(released.clone()), (), ring, false);
    assert_eq!(released.load(Relaxed), 2);
    assert_eq!(state.debug_text(), text(0, 0, 0));
}

#[test]
fn draining_reopens_the_door_and_returns_the_first_panic() {
    let state = LockState::new();
    let condvar = Condvar::new();
    let mut inner = LockStateInner::new();
    let mut w = Operation::begin_exclusive();
    w.acquire(&(), |_| ());
    for _ in 0..3 {
        let mut t = inner.enter_try();
        inner.settle_loss(&mut t, nothing(), &condvar);
    }
    inner.enter_drain(&mut w);
    let callbacks = inner.take(&mut w);
    w.give_back(());
    let (rung, panic) = drain_and_run(
        &state,
        &mut w,
        callbacks,
        0u64,
        |rung, callback: Callback| {
            callback.call();
            (rung + 1, if rung == 0 { None } else { Some(rung) })
        },
        false,
    );
    assert_eq!(rung, 3);
    assert_eq!(panic, Some(1));
    assert_eq!(state.debug_text(), text(0, 0, 0));
}

#[test]
fn a_lock_is_asked_for_once_the_operation_is_counted() {
    let state = LockState::new();
    let mut r = state.enter_shared();
    let seen = r.acquire(&state, |state: &LockState| state.debug_text());
    assert_eq!(seen, text(0, 0, 1));
    let t = state.enter_try();
    let seen = t.attempt(&state, |state: &LockState| Some(state.debug_text()));
    assert_eq!(seen, Some(text(0, 1, 1)));
}

#[test]
fn an_attempt_that_did_not_wait_holds_or_not() {
    assert!(Operation::settle_exclusive(None::<u64>).is_none());
    let held = Operation::settle_exclusive(Some(5u64));
    assert_eq!(held.map(|(_, guard)| guard), Some(5));
}

/// What unwinding out of a factory does: the guard that watches it is dropped armed.
#[test]
fn a_watch_that_is_cut_short_resolves_the_attempt() {
    let state = LockState::new();
    let _t1 = state.enter_try();
    let mut t2 = state.enter_try();
    let guard = PanicGuard::arm(&state);
    assert_eq!(guard.watch(|| 5u64), 5);
    assert_eq!(state.probe(), Some((0, 2, 0)));
    drop(guard);
    assert_eq!(state.probe(), Some((0, 1, 0)));
    let mut guard = PanicGuard::arm(&state);
    guard.disarm();
    drop(guard);
    assert_eq!(state.probe(), Some((0, 1, 0)), "disarmed, it resolves nothing");
    state.settle_win(&mut t2);
    // Nothing is in flight, so a release does not wait, and nothing was queued.
    let mut w = Operation::begin_exclusive();
    w.acquire(&(), |_| ());
    let count = |rung: u64, _: Callback| -> (u64, Option<()>) { (rung + 1, None) };
    assert_eq!(state.unlock_exclusive(&mut w, (), 0, count, false).0, 0);
}

#[test]
fn a_factory_that_returns_leaves_its_attempt_unresolved() {
    let state = LockState::new();
    let mut t = state.enter_try();
    assert_eq!(catch_panic(|| 5u64, &state), 5);
    assert_eq!(state.debug_text(), text(0, 1, 0));
    state.settle_loss(&mut t, nothing());
    assert_eq!(state.debug_text(), text(0, 0, 0));
}

/// The run in which a reader flushes although another one came in meanwhile: the
/// second reader finds the queue empty and leaves without flushing.
#[test]
fn a_reader_that_joins_during_a_flush_leaves_quietly() {
    let condvar = Condvar::new();
    let mut inner = LockStateInner::new();
    let (mut r1, ()) = inner.settle_shared(Some(())).unwrap();
    let mut t = inner.enter_try();
    assert!(inner.leave_shared(&mut r1));
    let (mut r2, ()) = inner.settle_shared(Some(())).unwrap();
    inner.settle_loss(&mut t, nothing(), &condvar);
    assert_eq!(inner.take(&mut r1).len(), 1);
    r1.give_back(());
    assert!(inner.leave_drain(&mut r1, &condvar));
    assert!(!inner.leave_shared(&mut r2));
    assert_eq!(inner.debug_text(), text(0, 0, 0));
}

/// A callback that lost only to a peek waits for the next release.
#[test]
fn a_queue_without_readers_waits_for_the_next_release() {
    let condvar = Condvar::new();
    let mut inner = LockStateInner::new();
    let mut t = inner.enter_try();
    inner.settle_loss(&mut t, nothing(), &condvar);
    let (mut r, ()) = inner.settle_shared(Some(())).unwrap();
    assert!(inner.leave_shared(&mut r));
    assert_eq!(inner.take(&mut r).len(), 1);
}

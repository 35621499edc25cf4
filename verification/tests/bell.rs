//! When the bell rings, for whom, and in which order.

use std::sync::{
    atomic::{AtomicBool, AtomicU64, Ordering::Relaxed},
    Arc,
};

use lockbell::{Callback, RwLockBell, RwLockBellReadGuard, RwLockBellWriteGuard};
use parking_lot::Mutex;

fn ring(_: (), callback: Callback) -> ((), Option<()>) {
    callback.call();
    ((), None)
}

fn done_reading<T: ?Sized>(guard: RwLockBellReadGuard<'_, T>) {
    assert!(RwLockBellReadGuard::unlock(guard, (), ring, false).panic.is_none());
}

fn done_writing<T: ?Sized>(guard: RwLockBellWriteGuard<'_, T>) {
    assert!(RwLockBellWriteGuard::unlock(guard, (), ring, false).panic.is_none());
}

#[test]
fn test_multiple_callbacks() {
    let lock = Arc::new(RwLockBell::new(0u64));
    let order = Arc::new(Mutex::new(Vec::new()));

    let guard = lock.try_write_or(|| {}).unwrap();

    for i in 0..5u64 {
        let order = order.clone();
        let _ = lock.try_write_or(move || order.lock().push(i));
    }

    done_writing(guard);
    assert_eq!(*order.lock(), vec![0, 1, 2, 3, 4]);
}

#[test]
fn test_callback_can_call_try_write() {
    let lock = Arc::new(RwLockBell::new(0u64));
    let lock2 = lock.clone();
    let got_it = Arc::new(AtomicBool::new(false));
    let got_it2 = got_it.clone();

    let guard = lock.try_write_or(|| {}).unwrap();
    let _ = lock.try_write_or(move || {
        if let Some(inner) = lock2.try_write_or(|| {}) {
            got_it2.store(true, Relaxed);
            done_writing(inner);
        }
    });
    done_writing(guard);
    assert!(got_it.load(Relaxed));
}

#[test]
fn test_write_triggers_callbacks() {
    let lock = Arc::new(RwLockBell::new(0u64));

    let called = Arc::new(AtomicBool::new(false));
    let called2 = called.clone();

    let guard = lock.write();
    let _ = lock.try_write_or(move || called2.store(true, Relaxed));
    assert!(!called.load(Relaxed));
    done_writing(guard);

    assert!(called.load(Relaxed));
}

#[test]
fn test_write_guard_mutates_value() {
    let lock = RwLockBell::new(0u64);
    {
        let mut w = lock.write();
        *w = 42;
        done_writing(w);
    }
    assert_eq!(*lock.read(), 42);
}

#[test]
fn test_callback_sees_updated_value() {
    let lock = Arc::new(RwLockBell::new(0u64));
    let lock2 = lock.clone();
    let seen = Arc::new(AtomicU64::new(0));
    let seen2 = seen.clone();

    let mut guard = lock.write();
    *guard = 99;
    let _ = lock.try_write_or(move || {
        let r = lock2.read();
        seen2.store(*r, Relaxed);
        done_reading(r);
    });
    done_writing(guard);

    assert_eq!(seen.load(Relaxed), 99);
}

#[test]
fn test_multiple_readers_callbacks_fire_on_last_drop() {
    const CALLBACKS: usize = 16;

    let lock = Arc::new(RwLockBell::new(0u64));
    let count = Arc::new(AtomicU64::new(0));

    let r1 = lock.read();
    let r2 = lock.read();
    let r3 = lock.read();
    let r4 = lock.read();
    let r5 = lock.read();
    let r6 = lock.read();
    let r7 = lock.read();
    let r8 = lock.read();

    for _ in 0..CALLBACKS {
        let c = count.clone();
        assert!(lock
            .try_write_or(move || {
                c.fetch_add(1, Relaxed);
            })
            .is_none());
    }

    done_reading(r1);
    done_reading(r2);
    done_reading(r3);
    done_reading(r4);
    done_reading(r5);
    done_reading(r6);
    done_reading(r7);
    assert_eq!(count.load(Relaxed), 0, "must not fire before last drop");

    done_reading(r8);
    assert_eq!(count.load(Relaxed), CALLBACKS as u64);
}

#[test]
fn test_read_guard_acquired_during_drain_does_not_deadlock() {
    let lock = Arc::new(RwLockBell::new(0u64));
    let inner_read_dropped = Arc::new(AtomicBool::new(false));
    let inner_read_dropped2 = inner_read_dropped.clone();
    let lock2 = lock.clone();

    let r = lock.read();
    assert!(lock
        .try_write_or(move || {
            let r_inner = lock2.read();
            done_reading(r_inner);
            inner_read_dropped2.store(true, Relaxed);
        })
        .is_none());

    done_reading(r);
    assert!(inner_read_dropped.load(Relaxed));

    let called = Arc::new(AtomicBool::new(false));
    let called2 = called.clone();
    let r2 = lock.read();
    assert!(lock.try_write_or(move || called2.store(true, Relaxed)).is_none());
    done_reading(r2);
    assert!(called.load(Relaxed));
}

#[test]
fn test_alternating_read_write_no_lost_callbacks() {
    const ITERS: usize = 200;

    let lock = Arc::new(RwLockBell::new(0u64));
    let count = Arc::new(AtomicU64::new(0));

    for _ in 0..ITERS {
        let c = count.clone();
        let r = lock.read();
        let _ = lock.try_write_or(move || {
            c.fetch_add(1, Relaxed);
        });
        done_reading(r);
    }

    assert_eq!(count.load(Relaxed), ITERS as u64);
}

/// The door reopens *before* callbacks run, so a callback calling `try_write_or`
/// is never blocked by the very flush running it.
#[test]
fn test_callbacks_run_after_drain_gate_reopens() {
    let lock = Arc::new(RwLockBell::new(0u64));
    let callback_ran = Arc::new(AtomicBool::new(false));
    let cr2 = callback_ran.clone();

    let lock2 = lock.clone();
    let probe_then_ring = move |_: (), callback: Callback| -> ((), Option<()>) {
        let guard = lock2.try_write_or(|| {});
        assert!(
            guard.is_some(),
            "lock must be acquirable once the door reopens"
        );
        done_writing(guard.unwrap());
        callback.call();
        ((), None)
    };

    let lock3 = lock.clone();
    let guard = lock.write();
    assert!(lock
        .try_write_or(move || {
            if let Some(inner) = lock3.try_write_or(|| {}) {
                done_writing(inner);
            }
            cr2.store(true, Relaxed);
        })
        .is_none());

    RwLockBellWriteGuard::unlock(guard, (), probe_then_ring, false);

    assert!(callback_ran.load(Relaxed));
}

#[test]
fn a_callback_registered_by_a_callback_waits_for_the_next_release() {
    let lock = Arc::new(RwLockBell::new(0u64));
    let order = Arc::new(Mutex::new(Vec::new()));

    let lock2 = lock.clone();
    let order2 = order.clone();
    let w = lock.write();
    assert!(lock
        .try_write_or(move || {
            order2.lock().push(1);
            let r = lock2.read();
            let order3 = order2.clone();
            assert!(lock2.try_write_or(move || order3.lock().push(2)).is_none());
            order2.lock().push(3);
            done_reading(r);
            order2.lock().push(4);
        })
        .is_none());
    done_writing(w);
    assert_eq!(*order.lock(), vec![1, 3, 2, 4]);
}

#[test]
fn every_registered_callback_rings_exactly_once() {
    let lock = Arc::new(RwLockBell::new(0u64));
    let counts: Vec<Arc<AtomicU64>> = (0..12).map(|_| Arc::new(AtomicU64::new(0))).collect();
    for (i, count) in counts.iter().enumerate() {
        let c = count.clone();
        if i % 2 == 0 {
            let r = lock.read();
            assert!(lock
                .try_write_or(move || {
                    c.fetch_add(1, Relaxed);
                })
                .is_none());
            done_reading(r);
        } else {
            let w = lock.write();
            assert!(lock
                .try_write_or_else(|| move || {
                    c.fetch_add(1, Relaxed);
                })
                .is_none());
            done_writing(w);
        }
    }
    let w = lock.write();
    done_writing(w);
    for count in counts {
        assert_eq!(count.load(Relaxed), 1);
    }
}

#[test]
fn a_callback_is_rung_with_the_lock_free() {
    let lock = Arc::new(RwLockBell::new(0u64));
    let lock2 = lock.clone();
    let was_free = Arc::new(AtomicBool::new(false));
    let was_free2 = was_free.clone();
    let w = lock.write();
    assert!(lock.try_write_or(move || was_free2.store(!lock2.is_locked(), Relaxed)).is_none());
    done_writing(w);
    assert!(was_free.load(Relaxed));
}

#[test]
fn a_winning_attempt_discards_its_callback() {
    let lock = RwLockBell::new(0u64);
    let called = Arc::new(AtomicBool::new(false));
    let called2 = called.clone();
    let w = lock.try_write_or(move || called2.store(true, Relaxed)).expect("lock is free");
    assert_eq!(Arc::strong_count(&called), 1, "dropped, not queued");
    done_writing(w);
    let w = lock.write();
    done_writing(w);
    assert!(!called.load(Relaxed));
}

#[test]
fn the_ringer_is_threaded_through_in_registration_order() {
    let lock = RwLockBell::new(0u64);
    let order = Arc::new(Mutex::new(Vec::new()));
    let w = lock.write();
    for i in 0..4u64 {
        let order = order.clone();
        assert!(lock.try_write_or(move || order.lock().push(i)).is_none());
    }
    let count = |rung: u64, callback: Callback| -> (u64, Option<()>) {
        callback.call();
        (rung + 1, None)
    };
    let unlocked = RwLockBellWriteGuard::unlock(w, 10, count, false);
    assert_eq!(unlocked.ringer, 14);
    assert!(unlocked.panic.is_none());
    assert_eq!(*order.lock(), vec![0, 1, 2, 3]);
}

#[test]
fn a_panic_does_not_keep_the_others_from_running() {
    let lock = RwLockBell::new(0u64);
    let ran = Arc::new(AtomicU64::new(0));
    let w = lock.write();
    for _ in 0..3 {
        let ran = ran.clone();
        assert!(lock
            .try_write_or(move || {
                ran.fetch_add(1, Relaxed);
            })
            .is_none());
    }
    // The second and the third callback are reported to have panicked.
    let report = |rung: u64, callback: Callback| -> (u64, Option<u64>) {
        callback.call();
        (rung + 1, if rung > 0 { Some(rung) } else { None })
    };
    let unlocked = RwLockBellWriteGuard::unlock(w, 0, report, false);
    assert_eq!(unlocked.panic, Some(1), "the first panic is returned");
    assert_eq!(ran.load(Relaxed), 3);
}

#[test]
fn a_panic_is_dropped_while_unwinding() {
    let lock = RwLockBell::new(0u64);
    let ran = Arc::new(AtomicBool::new(false));
    let ran2 = ran.clone();
    let r = lock.read();
    assert!(lock.try_write_or(move || ran2.store(true, Relaxed)).is_none());
    let report = |_: (), callback: Callback| -> ((), Option<u64>) {
        callback.call();
        ((), Some(7))
    };
    let unlocked = RwLockBellReadGuard::unlock(r, (), report, true);
    assert_eq!(unlocked.panic, None);
    assert!(ran.load(Relaxed));
}

#[test]
fn a_release_without_callbacks_rings_nothing() {
    let lock = RwLockBell::new(0u64);
    let never = |_: (), _: Callback| -> ((), Option<u64>) { unreachable!() };
    let r = lock.read();
    assert_eq!(RwLockBellReadGuard::unlock(r, (), never, false).panic, None);
    let w = lock.write();
    assert_eq!(RwLockBellWriteGuard::unlock(w, (), never, false).panic, None);
}

//! Printing must never ring the bell.

use std::sync::{
    atomic::{AtomicBool, Ordering::Relaxed},
    Arc,
};

use lockbell::{Callback, LockState, LockStateInner, RawRwLockBell, RwLockBell, RwLockBellReadGuard};

fn ring(_: (), callback: Callback) -> ((), Option<()>) {
    callback.call();
    ((), None)
}

fn done_reading<T: ?Sized>(guard: RwLockBellReadGuard<'_, T>) {
    assert!(RwLockBellReadGuard::unlock(guard, (), ring, false).panic.is_none());
}

#[test]
fn test_debug_shows_data_when_unlocked() {
    let lock = RwLockBell::new(42u64);
    assert_eq!(lock.debug_text().unwrap(), "RwLockBell { data: 42 }");
}

#[test]
fn test_debug_shows_locked_under_a_writer() {
    let lock = RwLockBell::new(42u64);
    let _w = lock.write();
    assert_eq!(lock.debug_text().unwrap(), "RwLockBell { data: <locked> }");
}

#[test]
fn test_debug_shows_data_under_a_reader() {
    let lock = RwLockBell::new(42u64);
    let _r = lock.read();
    assert_eq!(lock.debug_text().unwrap(), "RwLockBell { data: 42 }");
}

#[test]
fn test_debug_does_not_run_queued_callbacks() {
    let lock = Arc::new(RwLockBell::new(0u64));
    let called = Arc::new(AtomicBool::new(false));
    let called2 = called.clone();

    let r = lock.read();
    assert!(
        lock.try_write_or(move || called2.store(true, Relaxed))
            .is_none()
    );

    for _ in 0..100 {
        let _ = lock.debug_text().unwrap();
    }
    assert!(!called.load(Relaxed), "printing must not drain the queue");

    done_reading(r);
    assert!(called.load(Relaxed), "the real guard drop still drains");
}

#[test]
fn test_debug_does_not_disturb_the_reader_count() {
    let lock = Arc::new(RwLockBell::new(0u64));
    let called = Arc::new(AtomicBool::new(false));
    let called2 = called.clone();

    // Print between acquiring and releasing readers: the bell-free peek must
    // leave `readers` untouched, or the drain below would never fire.
    let r1 = lock.read();
    let _ = lock.debug_text().unwrap();
    let r2 = lock.read();
    let _ = lock.debug_text().unwrap();

    assert!(
        lock.try_write_or(move || called2.store(true, Relaxed))
            .is_none()
    );

    done_reading(r1);
    let _ = lock.debug_text().unwrap();
    assert!(!called.load(Relaxed), "one reader is still live");

    done_reading(r2);
    assert!(called.load(Relaxed), "reader count must have reached zero");
}

#[test]
fn the_texts_of_the_bookkeeping() {
    assert_eq!(
        LockState::new().debug_text(),
        "Inner { draining: 0, locking: 0, readers: 0, callbacks: \"{callbacks}\" }"
    );
    let mut inner = LockStateInner::new();
    let _r1 = inner.enter_shared();
    let _r2 = inner.enter_shared();
    let _t = inner.enter_try();
    assert_eq!(
        inner.debug_text(),
        "Inner { draining: 0, locking: 1, readers: 2, callbacks: \"{callbacks}\" }"
    );
}

#[test]
fn the_counters_of_the_bookkeeping() {
    let state = LockState::new();
    assert_eq!(state.probe(), Some((0, 0, 0)));
    let _r = state.enter_shared();
    let _t = state.enter_try();
    let _u = state.enter_try();
    assert_eq!(state.probe(), Some((0, 2, 1)));
    let probed = state.try_shared(&state, |state: &LockState| Some(state.probe()));
    assert_eq!(probed.map(|(_, counters)| counters), Some(None), "the bookkeeping is locked");
}

#[test]
fn the_text_of_a_lock_with_a_bell() {
    let lock = RawRwLockBell::new(parking_lot::RwLock::new(5u64));
    assert_eq!(
        lock.debug_text(|raw| raw.is_locked()),
        "RawRwLockBell { locked: false, state: Inner { draining: 0, locking: 0, readers: 0, \
         callbacks: \"{callbacks}\" } }"
    );
    let (mut op, held) = lock.lock_shared(|raw| raw.read());
    assert_eq!(
        lock.debug_text(|raw| raw.is_locked()),
        "RawRwLockBell { locked: true, state: Inner { draining: 0, locking: 0, readers: 1, \
         callbacks: \"{callbacks}\" } }"
    );
    lock.unlock_shared(&mut op, held, (), ring, false);
}

#[test]
fn bookkeeping_that_is_locked_says_so() {
    let lock = RawRwLockBell::new(parking_lot::RwLock::new(5u64));
    // The attempt is made with the bookkeeping locked.
    let mut text = String::new();
    let held = lock.try_lock_shared(|raw| {
        text = lock.state().debug_text();
        raw.try_write().map(|_| ())
    });
    assert!(held.is_some());
    assert_eq!(text, "LockState { inner: \"<locked>\" }");
}

#[test]
fn strings_are_printed_quoted() {
    let lock = RwLockBell::new("a\"b");
    assert_eq!(lock.debug_text().unwrap(), "RwLockBell { data: \"a\\\"b\" }");
}

struct Unprintable;

impl std::fmt::Debug for Unprintable {
    fn fmt(&self, _: &mut std::fmt::Formatter<'_>) -> std::fmt::Result {
        Err(std::fmt::Error)
    }
}

#[test]
fn a_value_that_cannot_be_printed_is_reported() {
    let lock = RwLockBell::new(Unprintable);
    assert!(lock.debug_text().is_none());
    assert!(!lock.is_locked(), "the value is let go");
    let _w = lock.write();
    assert_eq!(lock.debug_text().unwrap(), "RwLockBell { data: <locked> }");
}

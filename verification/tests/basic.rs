//! Acquiring, reading, writing and giving back.

use std::sync::{
    atomic::{AtomicBool, Ordering::Relaxed},
    Arc,
};

use lockbell::{Callback, RwLockBell, RwLockBellReadGuard, RwLockBellWriteGuard};

fn ring(_: (), callback: Callback) -> ((), Option<()>) {
    callback.call();
    ((), None)
}

fn done_reading<T: ?Sized>(guard: RwLockBellReadGuard<'_, T>) {
    assert!(RwLockBellReadGuard::unlock(guard, (), ring, false).panic.is_none());
}

fn done_writing<T: ?Sized>(guard: RwLockBellWriteGuard<'_, T>) {
    assert!(RwLockBellWriteGuard::unlock(guard, (), ring, false).panic.is_none());
}

#[test]
fn test_new_and_into_inner() {
    let lock = RwLockBell::new(42u64);
    assert_eq!(lock.into_inner(), 42);
}

#[test]
fn test_from_value() {
    let lock: RwLockBell<u64> = 42u64.into();
    assert_eq!(lock.into_inner(), 42);
}

#[test]
fn test_read() {
    let lock = RwLockBell::new(42u64);
    assert_eq!(*lock.read(), 42);
}

#[test]
fn test_concurrent_reads() {
    let lock = RwLockBell::new(42u64);
    let r1 = lock.read();
    let r2 = lock.read();
    assert_eq!(*r1, 42);
    assert_eq!(*r2, 42);
}

#[test]
fn test_try_read_succeeds_when_free() {
    let lock = RwLockBell::new(42u64);
    let r = lock.try_read().expect("lock is free");
    assert_eq!(*r, 42);
}

#[test]
fn test_try_read_fails_during_write() {
    let lock = RwLockBell::new(42u64);
    let _w = lock.write();
    assert!(lock.try_read().is_none());
}

#[test]
fn test_try_write_succeeds_when_free() {
    let lock = RwLockBell::new(0u64);
    let mut w = lock.try_write().expect("lock is free");
    *w = 99;
    done_writing(w);
    assert_eq!(*lock.read(), 99);
}

#[test]
fn test_try_write_fails_when_read_held() {
    let lock = RwLockBell::new(0u64);
    let _r = lock.read();
    assert!(lock.try_write().is_none());
}

#[test]
fn test_try_write_fails_when_write_held() {
    let lock = RwLockBell::new(0u64);
    let _w = lock.write();
    assert!(lock.try_write().is_none());
}

#[test]
fn test_write_guard_deref_mut() {
    let lock = RwLockBell::new(0u64);
    let mut w = lock.write();
    *w = 99;
    done_writing(w);
    assert_eq!(*lock.read(), 99);
}

#[test]
fn test_try_write_or_succeeds_when_free() {
    let lock = RwLockBell::new(0u64);
    let called = AtomicBool::new(false);
    let guard = lock.try_write_or(move || called.store(true, Relaxed));
    assert!(guard.is_some(), "should succeed when lock is free");
    done_writing(guard.unwrap());
}

#[test]
fn test_try_write_or_else_lazy_not_called_on_success() {
    let lock = RwLockBell::new(0u64);
    let factory_called = AtomicBool::new(false);
    let guard = lock.try_write_or_else(|| {
        factory_called.store(true, Relaxed);
        || {}
    });
    assert!(guard.is_some());
    done_writing(guard.unwrap());
    assert!(
        !factory_called.load(Relaxed),
        "callback factory must not be called on success"
    );
}

#[test]
fn test_into_inner_drops_pending_callbacks() {
    let lock = Arc::new(RwLockBell::new(0u64));
    let called = Arc::new(AtomicBool::new(false));
    let called2 = called.clone();

    let guard = lock.write();
    assert!(lock.try_write_or(move || called2.store(true, Relaxed)).is_none());
    done_writing(guard);
    assert!(called.load(Relaxed));

    // The callback fired when the guard was given back. Register another one.
    let called3 = called.clone();
    called.store(false, Relaxed);
    let r = lock.read();
    assert!(lock.try_write_or(move || called3.store(true, Relaxed)).is_none());
    done_reading(r);
    assert!(called.load(Relaxed));

    // Nothing is registered here: consuming the lock is all there is to it.
    let lock2 = RwLockBell::new(0u64);
    let called4 = Arc::new(AtomicBool::new(false));
    let called5 = called4.clone();
    let _ = lock2.into_inner();
    assert!(!called4.load(Relaxed));
    drop(called5);
}

#[test]
fn into_inner_discards_a_queued_callback() {
    let lock = RwLockBell::new(7u64);
    let called = Arc::new(AtomicBool::new(false));
    let called2 = called.clone();

    // A write attempt that loses to a peek stays queued.
    let peek = lock.peek().expect("lock is free");
    assert!(lock.try_write_or(move || called2.store(true, Relaxed)).is_none());
    drop(peek);
    assert!(!lock.is_locked());
    assert_eq!(Arc::strong_count(&called), 2);

    assert_eq!(lock.into_inner(), 7);
    assert!(!called.load(Relaxed), "discarded without being called");
    assert_eq!(Arc::strong_count(&called), 1);
}

#[test]
fn get_mut_reaches_the_value() {
    let mut lock = RwLockBell::new(1u64);
    *lock.get_mut() = 5;
    assert_eq!(*lock.get_mut(), 5);
    assert_eq!(lock.into_inner(), 5);
}

#[test]
fn default_protects_the_default() {
    let lock: RwLockBell<u64> = RwLockBell::default();
    assert_eq!(lock.into_inner(), 0);
}

#[test]
fn from_lock_keeps_the_value() {
    let lock = RwLockBell::from_lock(parking_lot::RwLock::new(12u64));
    assert_eq!(*lock.read(), 12);
}

#[test]
fn is_locked_follows_the_guards() {
    let lock = RwLockBell::new(0u64);
    assert!(!lock.is_locked());
    assert!(!lock.is_locked_exclusive());

    let r = lock.read();
    assert!(lock.is_locked());
    assert!(!lock.is_locked_exclusive());
    done_reading(r);
    assert!(!lock.is_locked());

    let w = lock.write();
    assert!(lock.is_locked());
    assert!(lock.is_locked_exclusive());
    done_writing(w);
    assert!(!lock.is_locked());
}

#[test]
fn readers_share_and_exclude_writers() {
    let lock = RwLockBell::new(3u64);
    let r1 = lock.read();
    let r2 = lock.try_read().expect("readers share");
    assert!(lock.try_write().is_none());
    done_reading(r1);
    assert!(lock.try_write().is_none());
    done_reading(r2);
    let w = lock.try_write().expect("no reader is left");
    done_writing(w);
}

#[test]
fn an_unsized_value_can_be_protected() {
    let lock: Box<RwLockBell<[u64]>> = Box::new(RwLockBell::new([1u64, 2, 3]));
    let mut w = lock.write();
    w[1] = 20;
    done_writing(w);
    let r = lock.read();
    assert_eq!(&*r, &[1, 20, 3]);
    done_reading(r);
}

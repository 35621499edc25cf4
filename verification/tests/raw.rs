//! The lock and its bell, driven directly.

use std::sync::{
    atomic::{AtomicBool, Ordering::Relaxed},
    Arc,
};

use lockbell::{Callback, RawRwLockBell, RwLockBell};
use parking_lot::RwLock;

type RawLock<T> = RawRwLockBell<RwLock<T>>;

fn ring(_: (), callback: Callback) -> ((), Option<()>) {
    callback.call();
    ((), None)
}

#[test]
fn test_raw_lock_registers_and_fires_callbacks() {
    let lock = RawLock::new(RwLock::new(0u64));
    let fired = Arc::new(AtomicBool::new(false));
    let fired2 = fired.clone();

    let (mut op, held) = lock.lock_exclusive(|raw| raw.write());

    let acquired = lock.try_lock_exclusive_or_else(
        |raw| raw.try_write(),
        || move || fired2.store(true, Relaxed),
    );
    assert!(acquired.is_err(), "the lock is held, so the callback is queued");

    assert!(!fired.load(Relaxed));
    lock.unlock_exclusive(&mut op, held, (), ring, false);
    assert!(fired.load(Relaxed), "releasing the lock rings the bell");
}

#[test]
fn test_raw_try_lock_exclusive_or_queues_on_contention() {
    let lock = RawLock::new(RwLock::new(0u64));
    let fired = Arc::new(AtomicBool::new(false));
    let fired2 = fired.clone();

    let (mut op, held) = lock.lock_exclusive(|raw| raw.write());

    let acquired =
        lock.try_lock_exclusive_or(|raw| raw.try_write(), move || fired2.store(true, Relaxed));
    assert!(acquired.is_err(), "the lock is held, so the callback is queued");

    assert!(!fired.load(Relaxed));
    lock.unlock_exclusive(&mut op, held, (), ring, false);
    assert!(fired.load(Relaxed), "releasing the lock rings the bell");
}

#[test]
fn test_raw_try_lock_exclusive_or_success_discards_the_callback() {
    let lock = RawLock::new(RwLock::new(0u64));

    let (mut op, held) = lock
        .try_lock_exclusive_or(|raw| raw.try_write(), || unreachable!())
        .unwrap_or_else(|_| panic!("the lock is free"));

    assert!(lock.raw().is_locked_exclusive());
    lock.unlock_exclusive(&mut op, held, (), ring, false);
    assert!(!lock.raw().is_locked());
}

/// Both entry points share one queue and one order.
#[test]
fn test_raw_or_and_or_else_interleave_in_registration_order() {
    let lock = RawLock::new(RwLock::new(0u64));
    let order = Arc::new(std::sync::Mutex::new(Vec::new()));

    let (mut op, held) = lock.lock_exclusive(|raw| raw.write());

    let o1 = order.clone();
    assert!(lock
        .try_lock_exclusive_or(|raw| raw.try_write(), move || o1.lock().unwrap().push(1))
        .is_err());
    let o2 = order.clone();
    assert!(lock
        .try_lock_exclusive_or_else(|raw| raw.try_write(), || move || o2.lock().unwrap().push(2))
        .is_err());
    let o3 = order.clone();
    assert!(lock
        .try_lock_exclusive_or(|raw| raw.try_write(), move || o3.lock().unwrap().push(3))
        .is_err());

    lock.unlock_exclusive(&mut op, held, (), ring, false);
    assert_eq!(*order.lock().unwrap(), vec![1, 2, 3]);
}

#[test]
fn test_raw_try_lock_exclusive_or_else_success_takes_the_lock() {
    let lock = RawLock::new(RwLock::new(0u64));

    let (mut op, held) = lock
        .try_lock_exclusive_or_else(|raw| raw.try_write(), || || unreachable!())
        .unwrap_or_else(|_| panic!("the lock is free"));

    assert!(lock.raw().is_locked_exclusive());
    lock.unlock_exclusive(&mut op, held, (), ring, false);
    assert!(!lock.raw().is_locked());
}

#[test]
fn test_wrapper_and_raw_agree_on_layout() {
    assert_eq!(
        std::mem::size_of::<RwLockBell<u64>>(),
        std::mem::size_of::<RawLock<u64>>()
    );
    assert_eq!(
        std::mem::align_of::<RwLockBell<u64>>(),
        std::mem::align_of::<RawLock<u64>>()
    );
}

#[test]
fn a_lost_shared_attempt_counts_no_reader() {
    let lock = RawLock::new(RwLock::new(0u64));
    let fired = Arc::new(AtomicBool::new(false));
    let fired2 = fired.clone();

    let (mut w, held) = lock.lock_exclusive(|raw| raw.write());
    assert!(lock.try_lock_shared(|raw| raw.try_read()).is_none());
    lock.unlock_exclusive(&mut w, held, (), ring, false);

    // Were a reader left in the count, this one would not be the last.
    let (mut r, held) = lock.try_lock_shared(|raw| raw.try_read()).expect("lock is free");
    assert!(lock
        .try_lock_exclusive_or(|raw| raw.try_write(), move || fired2.store(true, Relaxed))
        .is_err());
    lock.unlock_shared(&mut r, held, (), ring, false);
    assert!(fired.load(Relaxed));
}

#[test]
fn a_lost_plain_attempt_registers_nothing() {
    let lock = RawLock::new(RwLock::new(0u64));
    let (mut w, held) = lock.lock_exclusive(|raw| raw.write());
    assert!(lock.try_lock_exclusive(|raw| raw.try_write()).is_none());
    let (rung, _) = lock.unlock_exclusive(
        &mut w,
        held,
        0u64,
        |rung, callback: Callback| -> (u64, Option<()>) {
            callback.call();
            (rung + 1, None)
        },
        false,
    );
    assert_eq!(rung, 0);
    let (mut w, held) = lock.try_lock_exclusive(|raw| raw.try_write()).expect("lock is free");
    lock.unlock_exclusive(&mut w, held, (), ring, false);
}

#[test]
fn any_lock_can_have_a_bell() {
    // A lock of the standard library.
    let lock = RawRwLockBell::new(std::sync::RwLock::new(1u64));
    let fired = Arc::new(AtomicBool::new(false));
    let fired2 = fired.clone();
    let (mut r, held) = lock.lock_shared(|raw| raw.read().unwrap());
    assert!(lock
        .try_lock_exclusive_or(|raw| raw.try_write().ok(), move || fired2.store(true, Relaxed))
        .is_err());
    lock.unlock_shared(&mut r, held, (), ring, false);
    assert!(fired.load(Relaxed));
    assert_eq!(lock.into_raw().into_inner().unwrap(), 1);
}

#[test]
fn the_lock_itself_can_be_reached() {
    let mut lock: RawLock<u64> = RawLock::default();
    assert_eq!(*lock.raw().read(), 0);
    *lock.raw_mut().get_mut() = 3;
    let peek = lock.peek(|raw| raw.try_read()).expect("lock is free");
    assert_eq!(*peek, 3);
    drop(peek);
    assert_eq!(lock.into_raw().into_inner(), 3);
}

#[test]
fn the_bell_of_a_wrapped_lock_can_be_driven_directly() {
    let lock = RwLockBell::new(4u64);
    let fired = Arc::new(AtomicBool::new(false));
    let fired2 = fired.clone();
    let (mut op, held) = lock.raw().lock_shared(|raw| raw.read());
    assert!(lock.try_write_or(move || fired2.store(true, Relaxed)).is_none());
    lock.raw().unlock_shared(&mut op, held, (), ring, false);
    assert!(fired.load(Relaxed));
}

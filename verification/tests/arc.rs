//! Guards and callbacks obtained through an `Arc`.
//!
//! What holds the lock under the bell is chosen by the caller. Here it is a guard of
//! `parking_lot`, on an `Arc` that lives for good; or, where the `Arc` goes away, a
//! stand-in that has no lifetime.

use std::{
    ops::{Deref, DerefMut},
    sync::{
        atomic::{AtomicBool, AtomicU64, Ordering::Relaxed},
        Arc, Mutex, Weak,
    },
};

use lockbell::{
    ArcRwLockBellReadGuard, ArcRwLockBellWriteGuard, Callback, RwLockBell, RwLockBellReadGuard,
    RwLockBellWriteGuard,
};
use parking_lot::{RwLockReadGuard, RwLockWriteGuard};

type Lock = &'static Arc<RwLockBell<u64>>;
type Reader = ArcRwLockBellReadGuard<u64, RwLockReadGuard<'static, u64>>;
type Writer = ArcRwLockBellWriteGuard<u64, RwLockWriteGuard<'static, u64>>;

fn make(value: u64) -> Lock {
    Box::leak(Box::new(Arc::new(RwLockBell::new(value))))
}

fn read_arc(lock: Lock) -> Reader {
    lock.read_arc(|raw| raw.read())
}

fn try_read_arc(lock: Lock) -> Option<Reader> {
    lock.try_read_arc(|raw| raw.try_read())
}

fn write_arc(lock: Lock) -> Writer {
    lock.write_arc(|raw| raw.write())
}

fn try_write_arc(lock: Lock) -> Option<Writer> {
    lock.try_write_arc(|raw| raw.try_write())
}

fn try_write_arc_or(lock: Lock, callback: impl FnOnce() + Send + 'static) -> Option<Writer> {
    lock.try_write_arc_or(|raw| raw.try_write(), callback)
}

fn ring(_: (), callback: Callback) -> ((), Option<()>) {
    callback.call();
    ((), None)
}

fn done_reading<G>(guard: ArcRwLockBellReadGuard<u64, G>) {
    assert!(ArcRwLockBellReadGuard::unlock(guard, (), ring, false).panic.is_none());
}

fn done_writing<G>(guard: ArcRwLockBellWriteGuard<u64, G>) {
    assert!(ArcRwLockBellWriteGuard::unlock(guard, (), ring, false).panic.is_none());
}

#[test]
fn test_read_arc_and_write_arc() {
    let lock = make(0);

    let mut w = write_arc(lock);
    *w = 42;
    done_writing(w);

    let r = read_arc(lock);
    assert_eq!(*r, 42);
}

/// What `read` and `write` found, in a copy that has no lifetime.
struct Copied(u64);

impl Deref for Copied {
    type Target = u64;

    fn deref(&self) -> &u64 {
        &self.0
    }
}

impl DerefMut for Copied {
    fn deref_mut(&mut self) -> &mut u64 {
        &mut self.0
    }
}

#[test]
fn test_arc_guards_outlive_the_borrow() {
    struct Owned(ArcRwLockBellReadGuard<u64, Copied>);

    let (owned, alive) = {
        let lock = Arc::new(RwLockBell::new(7u64));
        let alive = Arc::downgrade(&lock);
        (Owned(lock.read_arc(|raw| Copied(*raw.read()))), alive)
        // `lock` goes out of scope here; the guard keeps the lock alive.
    };
    assert_eq!(*owned.0, 7);
    let lock = alive.upgrade().expect("the guard keeps the lock alive");
    assert_eq!(*lock.read(), 7);
    drop(lock);
    done_reading(owned.0);
    assert!(alive.upgrade().is_none());
}

/// What is held has to be let go while the lock is still there. It reads what `read`
/// and `write` found.
struct Hold(Weak<RwLockBell<u64>>, u64);

impl Deref for Hold {
    type Target = u64;

    fn deref(&self) -> &u64 {
        &self.1
    }
}

impl Drop for Hold {
    fn drop(&mut self) {
        assert!(self.0.upgrade().is_some(), "the lock is gone before what holds it");
    }
}

#[test]
fn test_owning_struct_dropped_as_last_reference() {
    struct Owned {
        guard: ArcRwLockBellReadGuard<u64, Hold>,
    }

    let (owned, lock) = {
        let lock = Arc::new(RwLockBell::new(3u64));
        let weak = Arc::downgrade(&lock);
        (
            Owned {
                guard: lock.read_arc(|raw| Hold(Arc::downgrade(&lock), *raw.read())),
            },
            weak,
        )
    };

    assert_eq!(*owned.guard, 3);
    assert!(lock.upgrade().is_some(), "the guard keeps the lock alive");
    done_reading(owned.guard);
    assert!(lock.upgrade().is_none());
}

#[test]
fn test_arc_read_guard_rings_the_bell() {
    let lock = make(0);
    let called = Arc::new(AtomicBool::new(false));
    let called2 = called.clone();

    let r = read_arc(lock);
    assert!(lock.try_write_or(move || called2.store(true, Relaxed)).is_none());

    assert!(!called.load(Relaxed));
    done_reading(r);
    assert!(called.load(Relaxed), "last Arc reader must drain callbacks");
}

#[test]
fn test_arc_write_guard_rings_the_bell() {
    let lock = make(0);
    let called = Arc::new(AtomicBool::new(false));
    let called2 = called.clone();

    let w = write_arc(lock);
    assert!(lock.try_write_or(move || called2.store(true, Relaxed)).is_none());

    assert!(!called.load(Relaxed));
    done_writing(w);
    assert!(called.load(Relaxed), "Arc writer must drain callbacks");
}

#[test]
fn test_arc_and_borrowed_readers_share_one_count() {
    let lock = make(0);
    let called = Arc::new(AtomicBool::new(false));
    let called2 = called.clone();

    let arc_reader = read_arc(lock);
    let borrowed_reader = lock.read();
    assert!(lock.try_write_or(move || called2.store(true, Relaxed)).is_none());

    done_reading(arc_reader);
    assert!(!called.load(Relaxed), "a reader is still holding the lock");

    RwLockBellReadGuard::unlock(borrowed_reader, (), ring, false);
    assert!(called.load(Relaxed));
}

#[test]
fn test_arc_guards_account_for_exactly_one_strong_reference() {
    let lock = make(0);
    assert_eq!(Arc::strong_count(lock), 1);

    let r1 = read_arc(lock);
    assert_eq!(Arc::strong_count(lock), 2);
    let r2 = try_read_arc(lock).expect("shared access");
    assert_eq!(Arc::strong_count(lock), 3);
    done_reading(r1);
    done_reading(r2);
    assert_eq!(Arc::strong_count(lock), 1);

    let w = write_arc(lock);
    assert_eq!(Arc::strong_count(lock), 2);
    done_writing(w);
    assert_eq!(Arc::strong_count(lock), 1);

    let w = try_write_arc(lock).expect("lock is free");
    assert_eq!(Arc::strong_count(lock), 2);
    done_writing(w);

    let w = try_write_arc_or(lock, || {}).expect("lock is free");
    assert_eq!(Arc::strong_count(lock), 2);
    done_writing(w);
    assert_eq!(Arc::strong_count(lock), 1);

    // The failure path must not leak a count either.
    let held = lock.write();
    assert!(try_write_arc_or(lock, || {}).is_none());
    assert!(try_read_arc(lock).is_none());
    assert!(try_write_arc(lock).is_none());
    RwLockBellWriteGuard::unlock(held, (), ring, false);
    assert_eq!(Arc::strong_count(lock), 1);
}

#[test]
fn test_arc_write_guard_is_last_reference() {
    // The guard is the sole owner when the handle goes away: giving it back must
    // let go of what it holds and then free the allocation, in that order.
    let (guard, lock) = {
        let lock = Arc::new(RwLockBell::new(1u64));
        let weak = Arc::downgrade(&lock);
        (lock.write_arc(|raw| Hold(Arc::downgrade(&lock), *raw.write())), weak)
    };
    done_writing(guard);
    assert!(lock.upgrade().is_none());
}

#[test]
fn test_try_write_arc_or_success_returns_arc_guard() {
    let lock = make(0);
    let called = Arc::new(AtomicBool::new(false));
    let called2 = called.clone();

    let mut w = try_write_arc_or(lock, move || called2.store(true, Relaxed)).expect("lock is free");
    *w = 5;
    done_writing(w);

    assert!(!called.load(Relaxed), "callback is discarded on success");
    assert_eq!(*lock.read(), 5);
}

#[test]
fn test_try_write_arc_or_queues_on_contention() {
    let lock = make(0);
    let called = Arc::new(AtomicBool::new(false));
    let called2 = called.clone();

    let held = lock.write();
    assert!(try_write_arc_or(lock, move || called2.store(true, Relaxed)).is_none());

    assert!(!called.load(Relaxed));
    RwLockBellWriteGuard::unlock(held, (), ring, false);
    assert!(called.load(Relaxed));
}

#[test]
fn test_try_write_arc_or_guard_has_no_lifetime() {
    struct Owned(ArcRwLockBellWriteGuard<u64, Copied>);

    let (mut owned, alive) = {
        let lock = Arc::new(RwLockBell::new(1u64));
        let alive = Arc::downgrade(&lock);
        let guard = lock.try_write_arc_or(|raw| raw.try_write().map(|w| Copied(*w)), || {});
        (Owned(guard.expect("lock is free")), alive)
    };
    assert_eq!(*owned.0, 1);
    *owned.0 = 2;
    assert_eq!(*owned.0, 2);
    assert!(alive.upgrade().is_some(), "the guard keeps the lock alive");
    done_writing(owned.0);
    assert!(alive.upgrade().is_none());
}

#[test]
fn test_try_write_arc_or_else_lazy_not_called_on_success() {
    let lock = make(0);
    let built = Arc::new(AtomicBool::new(false));
    let built2 = built.clone();

    let g = lock.try_write_arc_or_else(
        |raw| raw.try_write(),
        || {
            built2.store(true, Relaxed);
            || {}
        },
    );
    assert!(g.is_some());
    assert!(!built.load(Relaxed), "factory must not run on success");
}

#[test]
fn test_arc_and_borrowed_callbacks_share_one_queue() {
    let lock = make(0);
    let order = Arc::new(Mutex::new(Vec::new()));
    let seq = Arc::new(AtomicU64::new(0));

    let held = lock.write();

    for i in 0..4u64 {
        let order = order.clone();
        let seq = seq.clone();
        let record = move || {
            let _ = seq.fetch_add(1, Relaxed);
            order.lock().unwrap().push(i);
        };
        // Alternate between the borrowed and the Arc entry point.
        if i % 2 == 0 {
            assert!(lock.try_write_or(record).is_none());
        } else {
            assert!(try_write_arc_or(lock, record).is_none());
        }
    }

    RwLockBellWriteGuard::unlock(held, (), ring, false);
    assert_eq!(*order.lock().unwrap(), vec![0, 1, 2, 3], "one queue");
}

#[test]
fn a_lost_arc_attempt_builds_its_callback() {
    let lock = make(0);
    let called = Arc::new(AtomicBool::new(false));
    let called2 = called.clone();
    let held = lock.read();
    let lost = lock
        .try_write_arc_or_else(|raw| raw.try_write(), || move || called2.store(true, Relaxed));
    assert!(lost.is_none());
    RwLockBellReadGuard::unlock(held, (), ring, false);
    assert!(called.load(Relaxed));
}

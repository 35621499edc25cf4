//! Guards of a component of the protected value.

use std::sync::{
    atomic::{AtomicBool, Ordering::Relaxed},
    Arc,
};

use lockbell::{
    Callback, MappedRwLockBellReadGuard, MappedRwLockBellWriteGuard, RwLockBell,
    RwLockBellReadGuard, RwLockBellWriteGuard,
};

fn ring(_: (), callback: Callback) -> ((), Option<()>) {
    callback.call();
    ((), None)
}

fn done_reading<T: ?Sized>(guard: RwLockBellReadGuard<'_, T>) {
    assert!(RwLockBellReadGuard::unlock(guard, (), ring, false).panic.is_none());
}

fn done_writing<T: ?Sized>(guard: RwLockBellWriteGuard<'_, T>) {
    assert!(RwLockBellWriteGuard::unlock(guard, (), ring, false).panic.is_none());
}

fn done_reading_part<T: ?Sized>(guard: MappedRwLockBellReadGuard<'_, T>) {
    assert!(MappedRwLockBellReadGuard::unlock(guard, (), ring, false).panic.is_none());
}

fn done_writing_part<T: ?Sized>(guard: MappedRwLockBellWriteGuard<'_, T>) {
    assert!(MappedRwLockBellWriteGuard::unlock(guard, (), ring, false).panic.is_none());
}

#[test]
fn test_map_read_guard() {
    let lock = RwLockBell::new((1u64, 2u64));
    let mapped = RwLockBellReadGuard::map(lock.read(), |t| &t.0);
    assert_eq!(*mapped, 1);
}

#[test]
fn test_map_read_guard_fires_callbacks() {
    let lock = Arc::new(RwLockBell::new((1u64, 2u64)));
    let called = Arc::new(AtomicBool::new(false));
    let called2 = called.clone();

    let mapped = RwLockBellReadGuard::map(lock.read(), |t| &t.1);
    assert!(
        lock.try_write_or(move || called2.store(true, Relaxed))
            .is_none()
    );

    assert!(!called.load(Relaxed));
    done_reading_part(mapped);
    assert!(called.load(Relaxed));
}

#[test]
fn test_try_map_read_guard_success() {
    let lock = RwLockBell::new((1u64, 2u64));
    let mapped = RwLockBellReadGuard::try_map(lock.read(), |t| Some(&t.0));
    assert!(mapped.is_ok());
    assert_eq!(*mapped.ok().unwrap(), 1);
}

#[test]
fn test_try_map_read_guard_failure() {
    let lock = RwLockBell::new((1u64, 2u64));
    let r = lock.read();
    let result = RwLockBellReadGuard::try_map(r, |_| None::<&u64>);
    assert!(result.is_err());
    // The original guard is returned.
    let original = result.err().unwrap();
    assert_eq!(*original, (1, 2));
}

#[test]
fn test_try_map_read_guard_failure_still_fires_callbacks() {
    let lock = Arc::new(RwLockBell::new((1u64, 2u64)));
    let called = Arc::new(AtomicBool::new(false));
    let called2 = called.clone();

    let r = lock.read();
    assert!(
        lock.try_write_or(move || called2.store(true, Relaxed))
            .is_none()
    );

    let result = RwLockBellReadGuard::try_map(r, |_| None::<&u64>);
    let original = result.err().unwrap();
    assert!(!called.load(Relaxed), "callback must not fire yet");
    done_reading(original);
    assert!(called.load(Relaxed), "callback must fire after drop");
}

#[test]
fn test_try_map_or_err_read_guard_success() {
    let lock = RwLockBell::new((1u64, 2u64));
    let mapped = RwLockBellReadGuard::try_map_or_err(lock.read(), |t| Ok::<_, ()>(&t.1));
    assert!(mapped.is_ok());
    assert_eq!(*mapped.ok().unwrap(), 2);
}

#[test]
fn test_try_map_or_err_read_guard_failure() {
    let lock = RwLockBell::new((1u64, 2u64));
    let r = lock.read();
    let result = RwLockBellReadGuard::try_map_or_err(r, |_| Err::<&u64, _>("oops"));
    assert!(result.is_err());
    let (original, err) = result.err().unwrap();
    assert_eq!(err, "oops");
    assert_eq!(*original, (1, 2));
}

#[test]
fn test_map_write_guard() {
    let lock = RwLockBell::new((1u64, 2u64));
    let mut mapped = RwLockBellWriteGuard::map(lock.write(), |t| &mut t.0);
    *mapped = 99;
    done_writing_part(mapped);
    assert_eq!(lock.read().0, 99);
}

#[test]
fn test_map_write_guard_fires_callbacks() {
    let lock = Arc::new(RwLockBell::new((1u64, 2u64)));
    let called = Arc::new(AtomicBool::new(false));
    let called2 = called.clone();

    let mapped = RwLockBellWriteGuard::map(lock.write(), |t| &mut t.1);
    assert!(
        lock.try_write_or(move || called2.store(true, Relaxed))
            .is_none()
    );

    assert!(!called.load(Relaxed));
    done_writing_part(mapped);
    assert!(called.load(Relaxed));
}

#[test]
fn test_try_map_write_guard_success() {
    let lock = RwLockBell::new((1u64, 2u64));
    let mapped = RwLockBellWriteGuard::try_map(lock.write(), |t| Some(&mut t.0));
    assert!(mapped.is_ok());
    let mut m = mapped.ok().unwrap();
    *m = 42;
    done_writing_part(m);
    assert_eq!(lock.read().0, 42);
}

#[test]
fn test_try_map_write_guard_failure() {
    let lock = RwLockBell::new((1u64, 2u64));
    let w = lock.write();
    let result = RwLockBellWriteGuard::try_map(w, |_| None::<&mut u64>);
    assert!(result.is_err());
    let original = result.err().unwrap();
    assert_eq!(*original, (1, 2));
}

#[test]
fn test_try_map_write_guard_failure_still_fires_callbacks() {
    let lock = Arc::new(RwLockBell::new((1u64, 2u64)));
    let called = Arc::new(AtomicBool::new(false));
    let called2 = called.clone();

    let w = lock.write();
    assert!(
        lock.try_write_or(move || called2.store(true, Relaxed))
            .is_none()
    );

    let result = RwLockBellWriteGuard::try_map(w, |_| None::<&mut u64>);
    let original = result.err().unwrap();
    assert!(!called.load(Relaxed));
    done_writing(original);
    assert!(called.load(Relaxed));
}

#[test]
fn test_try_map_err_write_guard_success() {
    let lock = RwLockBell::new((1u64, 2u64));
    let mapped = RwLockBellWriteGuard::try_map_or_err(lock.write(), |t| Ok::<_, ()>(&mut t.1));
    assert!(mapped.is_ok());
    let mut m = mapped.ok().unwrap();
    assert_eq!(*m, 2);
    *m = 77;
    done_writing_part(m);
    assert_eq!(lock.read().1, 77);
}

#[test]
fn test_try_map_err_write_guard_failure() {
    let lock = RwLockBell::new((1u64, 2u64));
    let w = lock.write();
    let result = RwLockBellWriteGuard::try_map_or_err(w, |_| Err::<&mut u64, _>("oops"));
    assert!(result.is_err());
    let (original, err) = result.err().unwrap();
    assert_eq!(err, "oops");
    assert_eq!(*original, (1, 2));
}

#[test]
fn a_mapped_read_guard_maps_again() {
    let lock = RwLockBell::new((1u64, (2u64, 3u64)));
    let called = Arc::new(AtomicBool::new(false));
    let called2 = called.clone();

    let pair = RwLockBellReadGuard::map(lock.read(), |t| &t.1);
    let last = MappedRwLockBellReadGuard::map(pair, |p| &p.1);
    assert_eq!(*last, 3);
    assert!(lock.try_write_or(move || called2.store(true, Relaxed)).is_none());
    let last = match MappedRwLockBellReadGuard::try_map(last, |_| None::<&u64>) {
        Ok(_) => panic!("nothing was found"),
        Err(same) => same,
    };
    assert_eq!(*last, 3);
    let last = match MappedRwLockBellReadGuard::try_map_or_err(last, |_| Err::<&u64, _>(7)) {
        Ok(_) => panic!("nothing was found"),
        Err((same, error)) => {
            assert_eq!(error, 7);
            same
        }
    };
    let same = MappedRwLockBellReadGuard::try_map(last, |n| Some(n)).unwrap_or_else(|_| panic!());
    let same = MappedRwLockBellReadGuard::try_map_or_err(same, |n| Ok::<_, ()>(n))
        .unwrap_or_else(|_| panic!());
    assert_eq!(*same, 3);
    assert!(!called.load(Relaxed));
    done_reading_part(same);
    assert!(called.load(Relaxed));
    assert!(!lock.is_locked());
}

#[test]
fn a_mapped_write_guard_maps_again() {
    let lock = RwLockBell::new((1u64, (2u64, 3u64)));
    let called = Arc::new(AtomicBool::new(false));
    let called2 = called.clone();

    let pair = RwLockBellWriteGuard::map(lock.write(), |t| &mut t.1);
    let mut last = MappedRwLockBellWriteGuard::map(pair, |p| &mut p.1);
    assert_eq!(*last, 3);
    *last = 30;
    assert!(lock.try_write_or(move || called2.store(true, Relaxed)).is_none());
    let last = match MappedRwLockBellWriteGuard::try_map(last, |_| None::<&mut u64>) {
        Ok(_) => panic!("nothing was found"),
        Err(same) => same,
    };
    assert_eq!(*last, 30);
    let last = match MappedRwLockBellWriteGuard::try_map_or_err(last, |_| Err::<&mut u64, _>(7)) {
        Ok(_) => panic!("nothing was found"),
        Err((same, error)) => {
            assert_eq!(error, 7);
            same
        }
    };
    let same = MappedRwLockBellWriteGuard::try_map(last, |n| Some(n)).unwrap_or_else(|_| panic!());
    let mut same = MappedRwLockBellWriteGuard::try_map_or_err(same, |n| Ok::<_, ()>(n))
        .unwrap_or_else(|_| panic!());
    *same += 1;
    assert!(!called.load(Relaxed));
    done_writing_part(same);
    assert!(called.load(Relaxed));
    assert_eq!(lock.into_inner(), (1, (2, 31)));
}

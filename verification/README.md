# lockbell

A reader-writer lock that rings back when contention clears, written in Verus.

`try_write` on a lock that is held fails and leaves you with no way to know when the
lock becomes free. `try_write_or` takes a callback: if the attempt fails, the callback
is queued, and it runs once the lock has been released by the next writer or by the
last reader.

```rust
use lockbell::{Callback, RwLockBell, RwLockBellWriteGuard};

let lock = RwLockBell::new(0u32);
let guard = lock.write();

// Fails, since the lock is held. The callback is queued.
assert!(lock.try_write_or(|| println!("lock is free now")).is_none());

// Gives the guard back, and hands every queued callback to `ring`, oldest first.
let ring = |_: (), callback: Callback| -> ((), Option<()>) { (callback.call(), None) };
RwLockBellWriteGuard::unlock(guard, (), ring, false);
```

## Layout

- `src/` is the library, all of it verified but for the calls into `parking_lot`,
  which stand in `src/sync.rs` and `src/rwlock/hold.rs`, and one call of `write!` in
  `src/text.rs`.
- `app/` has guards that give themselves back when they are dropped, what the guards
  via `Arc` hold the lock by, the formatting traits, and the bell as a raw lock of
  `lock_api`. They need destructors that can unwind, or `unsafe`.
- `tests/` runs the library.

## What is proved

Each function states what it does to the bookkeeping, which callbacks it runs, and in
which order things happen: the lock is asked for once the operation is counted or past
the door, it is given back once the queue is taken, and callbacks run once the lock is
given back, the door reopened and the bookkeeping unlocked. A guard reads what was
written through it. `src/rwlock/laws.rs` relates the functions to each other.

On top of that, `src/protocol.rs` models any number of threads that use one lock at the
same time, in the steps that the functions are made of, and `src/laws.rs` and
`src/progress.rs` state what holds of all runs of that model:

- A callback is never stranded: while one is queued, somebody is there whose release
  takes it, unless it lost to nothing but peeks.
- A callback runs at most once, after the release that runs it has given the lock back.
  Those that one release runs, run in the order in which they were queued.
- Only the last reader flushes, and a flush takes everything.
- No write attempt gets past the door while a flush is under way, so no callback lands
  in a batch that has been taken.
- Peeking, which is how a lock is printed, neither rings nor counts.
- The bell never deadlocks, and what has begun comes to an end.

The code is held to the model by the functions on the bookkeeping and by the phases of
an operation, which both share. That a call returns is proved of the model only.

//! The mathematical model of the bell's bookkeeping.
//!
//! Each spec function below is what one critical section of the lock does to
//! the bookkeeping; [`crate::inner::LockStateInner`] holds the executable
//! counterparts.
use vstd::prelude::*;

verus! {

/// What the bell knows: how many flushes are under way, how many write
/// attempts are unresolved, how many readers there are, and which callbacks
/// wait, oldest first.
pub struct BellView<C> {
    /// Flushes between their beginning and the reopening of the door.
    pub draining: nat,
    /// Write attempts between passing the door and being resolved.
    pub locking: nat,
    /// Shared locks that are held or waited for.
    pub readers: nat,
    /// Callbacks left by lost write attempts, in registration order.
    pub callbacks: Seq<C>,
}

/// One more, as far as a 64-bit counter goes.
pub open spec fn bump(count: nat) -> nat {
    if count < u64::MAX {
        count + 1
    } else {
        count
    }
}

/// One less, and never below zero.
pub open spec fn lower(count: nat) -> nat {
    if count > 0 {
        (count - 1) as nat
    } else {
        0
    }
}

/// The name under which a reader is counted before it waits. A function that opens
/// nothing under this name counts no reader so.
pub open spec fn waiting() -> int {
    0
}

/// The name under which a reader is counted that got the lock without waiting. A
/// function that opens nothing under this name counts no reader so.
pub open spec fn trying() -> int {
    1
}

/// The name under which a reader is taken out of the count.
pub open spec fn leaving() -> int {
    2
}

/// The name under which a writer begins a flush.
pub open spec fn flushing() -> int {
    3
}

/// The name under which the queue is taken. A function that opens nothing under this
/// name takes no callback.
pub open spec fn taking() -> int {
    4
}

/// The name under which a flush ends.
pub open spec fn reopening() -> int {
    5
}

/// The name under which a write attempt passes the door.
pub open spec fn passing() -> int {
    6
}

impl<C> BellView<C> {
    /// The bookkeeping of a lock that nobody has used yet.
    pub open spec fn quiet() -> Self {
        BellView { draining: 0, locking: 0, readers: 0, callbacks: Seq::empty() }
    }

    /// A reader is counted.
    pub open spec fn enter_shared(self) -> Self {
        BellView { readers: bump(self.readers), ..self }
    }

    /// A reader is counted if its attempt on the lock succeeded.
    pub open spec fn settle_shared(self, acquired: bool) -> Self {
        if acquired {
            self.enter_shared()
        } else {
            self
        }
    }

    /// A flush begins.
    pub open spec fn enter_drain(self) -> Self {
        BellView { draining: bump(self.draining), ..self }
    }

    /// Whether a reader that leaves has to flush: it was the last one, no other
    /// flush is under way, and some callback is queued or may yet be.
    pub open spec fn last_reader_drains(self) -> bool {
        &&& lower(self.readers) == 0
        &&& self.draining == 0
        &&& (self.callbacks.len() > 0 || self.locking > 0)
    }

    /// A reader leaves, and begins a flush if that falls to it.
    pub open spec fn leave_shared(self) -> Self {
        let left = BellView { readers: lower(self.readers), ..self };
        if self.last_reader_drains() {
            left.enter_drain()
        } else {
            left
        }
    }

    /// A flush takes every callback that is queued.
    pub open spec fn take(self) -> Self {
        BellView { callbacks: Seq::empty(), ..self }
    }

    /// A flush is over, and the door one flush nearer to being open.
    pub open spec fn leave_drain(self) -> Self {
        BellView { draining: lower(self.draining), ..self }
    }

    /// A write attempt passes the door.
    pub open spec fn enter_try(self) -> Self {
        BellView { locking: bump(self.locking), ..self }
    }

    /// A write attempt is resolved.
    pub open spec fn leave_try(self) -> Self {
        BellView { locking: lower(self.locking), ..self }
    }

    /// A write attempt is resolved: `Some(callback)` if it lost, `None` if it
    /// won.
    pub open spec fn settle_try(self, lost: Option<C>) -> Self {
        match lost {
            Some(callback) => BellView {
                callbacks: self.callbacks.push(callback),
                ..self
            }.leave_try(),
            None => self.leave_try(),
        }
    }

    /// Whether a flush has to wait before it may take the queue.
    pub open spec fn has_unresolved(self) -> bool {
        self.locking > 0
    }

    /// Whether a write attempt has to wait at the door.
    pub open spec fn door_closed(self) -> bool {
        self.draining > 0
    }
}

} // verus!

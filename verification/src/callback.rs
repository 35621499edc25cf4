//! What a lost write attempt leaves behind.
use vstd::prelude::*;

verus! {

/// Something that can be told, once, that contention has cleared.
///
/// Every `FnOnce() + Send` closure is one.
pub trait Notify: Send {
    /// Whether calling [`notify`](Notify::notify) is allowed.
    spec fn callable(&self) -> bool;

    /// What holds once [`notify`](Notify::notify) has returned.
    spec fn delivered(&self) -> bool;

    /// Delivers the notification.
    fn notify(self: Box<Self>)
        requires
            self.callable(),
        ensures
            self.delivered(),
    ;
}

impl<F: FnOnce() + Send> Notify for F {
    open spec fn callable(&self) -> bool {
        self.requires(())
    }

    open spec fn delivered(&self) -> bool {
        self.ensures((), ())
    }

    fn notify(self: Box<Self>) {
        let callback = *self;
        callback()
    }
}

/// A notification that can be queued.
pub struct Callback {
    notify: Box<dyn Notify>,
}

impl Callback {
    /// Whether calling [`call`](Callback::call) is allowed.
    pub closed spec fn callable(&self) -> bool {
        self.notify.callable()
    }

    /// What holds once [`call`](Callback::call) has returned.
    pub closed spec fn delivered(&self) -> bool {
        self.notify.delivered()
    }

    /// The notification that calls `f`.
    pub closed spec fn of<F: FnOnce() + Send + 'static>(f: F) -> Self {
        Callback { notify: Box::new(f) }
    }

    /// Boxes a closure.
    pub fn new<F: FnOnce() + Send + 'static>(f: F) -> (callback: Self)
        ensures
            callback == Callback::of(f),
            callback.callable() == f.requires(()),
            callback.delivered() == f.ensures((), ()),
    {
        assert(f.callable() == f.requires(()));
        assert(f.delivered() == f.ensures((), ()));
        Callback { notify: Box::new(f) }
    }

    /// Calls the closure.
    pub fn call(self)
        requires
            self.callable(),
        ensures
            self.delivered(),
    {
        self.notify.notify()
    }
}

/// Whether every one of `callbacks` may be called.
pub open spec fn all_callable(callbacks: Seq<Callback>) -> bool {
    forall|i: int| 0 <= i < callbacks.len() ==> (#[trigger] callbacks[i]).callable()
}

} // verus!

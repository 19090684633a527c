//! Cells shared between cores during bring-up, and marker checks for the
//! types that generated code hands between contexts.
use core::sync::atomic::{AtomicBool, AtomicI32, Ordering};
use vstd::prelude::*;

verus! {

/// A one-shot release flag: cores wait on it until the first core releases them.
pub struct Barrier {
    inner: AtomicBool,
}

impl Barrier {
    pub fn new() -> (r: Barrier) {
        Barrier { inner: AtomicBool::new(false) }
    }

    /// Releases every waiter; what was written before is visible to them.
    pub fn release(&self) {
        self.inner.store(true, Ordering::Release)
    }

    /// Whether the flag has been released; a `true` makes visible what the
    /// releasing core wrote before it released.
    pub fn is_released(&self) -> (r: bool) {
        self.inner.load(Ordering::Acquire)
    }
}

/// A published process or thread identifier; zero until it is published.
pub struct Pid {
    inner: AtomicI32,
}

impl Pid {
    pub fn uninit() -> (r: Pid) {
        Pid { inner: AtomicI32::new(0) }
    }

    pub fn get(&self) -> (r: i32) {
        self.inner.load(Ordering::Relaxed)
    }

    pub fn init(&self, pid: i32) {
        self.inner.store(pid, Ordering::Relaxed)
    }

    /// The identifier, once it has been published.
    pub fn published(&self) -> (r: Option<i32>)
        ensures
            r is Some ==> r->0 != 0,
    {
        Pid::published_value(self.inner.load(Ordering::Relaxed))
    }

    /// Reads a value of the cell: zero means not yet published, anything else
    /// is the identifier.
    pub fn published_value(raw: i32) -> (r: Option<i32>)
        ensures
            raw == 0 ==> r is None,
            raw != 0 ==> r == Some(raw),
    {
        if raw == 0 {
            None
        } else {
            Some(raw)
        }
    }
}

/// A published timer identifier.
pub struct Timer {
    inner: AtomicI32,
}

impl Timer {
    pub fn uninit() -> (r: Timer) {
        Timer { inner: AtomicI32::new(0) }
    }

    pub fn get(&self) -> (r: i32) {
        self.inner.load(Ordering::Relaxed)
    }

    pub fn init(&self, timer: i32) {
        self.inner.store(timer, Ordering::Relaxed)
    }
}

/// Compiles only where `T` can be sent to another context.
pub fn assert_send<T: Send>() {
}

/// Compiles only where `T` can be shared between contexts.
pub fn assert_sync<T: Sync>() {
}

} // verus!

use crate::mutex::RawMutex;
use crate::platform::{futex_wait, futex_wake_all, futex_wake_one};
use std::sync::atomic::AtomicU32;
use std::sync::atomic::Ordering;
use vstd::prelude::*;

verus! {

/// A condition variable: a counter that every notification bumps, so that a
/// waiter that read it before releasing the mutex does not sleep through a
/// notification made after that read. Its protocol is
/// `crate::condvar_waiters::CondvarModel` built with `new_plain`.
pub struct MyCondvar {
    counter: AtomicU32,
}

impl MyCondvar {
    /// A condition variable nobody waits on.
    pub fn new() -> (condvar: MyCondvar) {
        MyCondvar { counter: AtomicU32::new(0) }
    }

    /// Bumps the counter and wakes one waiter.
    pub fn notify_one(&self) {
        self.counter.fetch_add(1, Ordering::Relaxed);
        futex_wake_one(&self.counter);
    }

    /// Bumps the counter and wakes every waiter.
    pub fn notify_all(&self) {
        self.counter.fetch_add(1, Ordering::Relaxed);
        futex_wake_all(&self.counter);
    }

    /// The middle of `wait`, for a caller that holds `mutex`: reads the
    /// counter, releases the mutex, and sleeps while the counter keeps the
    /// value read. The caller takes the mutex again afterwards.
    pub fn release_and_wait(&self, mutex: &RawMutex) {
        let counter_value = self.counter.load(Ordering::Relaxed);
        mutex.unlock();
        futex_wait(&self.counter, counter_value);
    }
}

} // verus!

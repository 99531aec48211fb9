use std::sync::atomic::AtomicU32;
use std::sync::atomic::Ordering;
use vstd::prelude::*;

verus! {

/// Calls `atomic_wait::wait`: if the atomic holds `value`, the calling thread
/// sleeps until a wake on the same atomic, or returns spuriously. Nothing is
/// promised: the call may also return at once, and whether it returns at all
/// rests on other threads.
#[verifier::external_body]
pub(crate) fn futex_wait(atomic: &AtomicU32, value: u32) {
    atomic_wait::wait(atomic, value)
}

/// Calls `atomic_wait::wake_one`: wakes at most one thread sleeping on the
/// atomic. It returns nothing and leaves the atomic's value as it is.
#[verifier::external_body]
pub(crate) fn futex_wake_one(atomic: &AtomicU32) {
    atomic_wait::wake_one(atomic)
}

/// Calls `atomic_wait::wake_all`: wakes every thread sleeping on the atomic.
/// It returns nothing and changes no value that Verus sees.
#[verifier::external_body]
pub(crate) fn futex_wake_all(atomic: &AtomicU32) {
    atomic_wait::wake_all(atomic)
}

/// Calls `std::hint::spin_loop`: a hint to the processor inside a busy-wait
/// loop. It returns nothing and changes no value.
#[verifier::external_body]
pub(crate) fn spin_hint() {
    std::hint::spin_loop()
}

/// Calls `std::sync::atomic::fence` with `Ordering::Acquire`: orders the
/// memory accesses around it. It returns nothing and changes no value.
#[verifier::external_body]
pub(crate) fn acquire_fence() {
    std::sync::atomic::fence(Ordering::Acquire)
}

} // verus!

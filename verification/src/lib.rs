//! Locks, channels and reference counting built on atomics, with the
//! decisions each primitive takes proved against its contract, and a model
//! of each protocol whose invariants are proved over every interleaving.

mod platform;
pub mod arc;
pub mod condvar;
pub mod condvar_waiters;
pub mod message_queue;
pub mod mutex;
pub mod oneshot;
pub mod rwlock;
pub mod spin_lock;

# rust_atomics

Spin locks, one-shot and queue channels, reference-counted pointers, a
futex mutex, condition variables and a reader-writer lock, built on atomics.

- `src/` is verified with Verus. For each primitive it holds
  - the atomic state word(s) and the operations on them (`SpinLock`,
    `RawMutex`, `RawRwLock`, `RefCount`, `ArcCounts`, `OneShotFlags`,
    `MyCondvar`), each doing one bounded step of the protocol and taking its
    decision through a small verified function;
  - a model of the protocol (`SpinModel`, `MutexModel`, `RwModel`,
    `RefCountModel`, `ArcModel`, `WeakArcModel`, `CondvarModel` with the
    mutex that `wait` releases, `OneShotModel`, and the ghost history of
    `MessageQueue`) with one transition per atomic operation or futex call
    of the core, taking its decision through the same verified function; the
    invariant is proved over every interleaving, and the laws (mutual
    exclusion, no lost wake-up or notification, no use after free, FIFO
    delivery, ...) are proof functions. std's atomics carry no specified
    value, so that a core performs exactly its model's steps is seen by
    reading the two side by side, not proved.
- `app/` holds what needs `UnsafeCell`, raw pointers or unbounded waiting:
  the guards, the value-holding locks and channels, `MyArc`/`MyWeak`, the
  loops that retry a step until another thread lets it finish, and logging.
- `tests/` drives the cores single-threaded and the models through
  concrete interleavings.

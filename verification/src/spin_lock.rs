use std::sync::atomic::AtomicBool;
use std::sync::atomic::Ordering;
use vstd::prelude::*;

verus! {

/// Whether a `swap(true)` on the lock flag took the lock: it did exactly when
/// the flag was clear before the swap.
pub open spec fn swap_acquires(previous: bool) -> bool {
    !previous
}

/// Decides, from what the swap of the lock flag returned, whether the caller
/// now holds the lock.
pub fn acquired_after_swap(previous: bool) -> (acquired: bool)
    ensures
        acquired == swap_acquires(previous),
{
    !previous
}

/// A lock that spins: one atomic flag, set while the lock is held.
pub struct SpinLock {
    locked: AtomicBool,
}

impl SpinLock {
    /// A lock that nobody holds.
    pub fn new() -> (lock: SpinLock) {
        SpinLock { locked: AtomicBool::new(false) }
    }

    /// One attempt to take the lock: swaps `true` into the flag and reports
    /// whether the flag was clear before. Whether it was depends on the other
    /// threads, so no clause fixes the result.
    pub fn try_lock(&self) -> (acquired: bool) {
        let previous = self.locked.swap(true, Ordering::Acquire);
        acquired_after_swap(previous)
    }

    /// Releases the lock by clearing the flag.
    pub fn unlock(&self) {
        self.locked.store(false, Ordering::Release);
    }
}

/// Where a thread stands in the spin lock protocol: a thread that spins is
/// `Idle` between two swaps.
#[derive(Clone, Copy, PartialEq, Eq, Debug)]
pub enum SpinPc {
    Idle,
    Holding,
}

pub open spec fn spin_holding(pc: SpinPc) -> bool {
    pc is Holding
}

/// The lock flag and where each thread stands: a model of every interleaving
/// of `SpinLock`'s operations.
pub struct SpinModel {
    pub locked: bool,
    pub threads: Vec<SpinPc>,
}

impl SpinModel {
    /// The invariant: at most one thread holds the lock, and the flag is set
    /// exactly when one does.
    pub open spec fn wf(&self) -> bool {
        &&& forall|i: int, j: int|
            0 <= i < self.threads@.len() && 0 <= j < self.threads@.len()
                && #[trigger] spin_holding(self.threads@[i]) && #[trigger] spin_holding(self.threads@[j]) ==> i == j
        &&& self.locked == exists|i: int| 0 <= i < self.threads@.len() && #[trigger] spin_holding(self.threads@[i])
    }

    pub open spec fn pc(&self, tid: int) -> SpinPc {
        self.threads@[tid]
    }

    /// `threads` idle threads and a free lock.
    pub fn new(threads: usize) -> (m: SpinModel)
        ensures
            m.wf(),
            !m.locked,
            m.threads@ == Seq::new(threads as nat, |i: int| SpinPc::Idle),
    {
        let mut v: Vec<SpinPc> = Vec::new();
        let mut k: usize = 0;
        while k < threads
            invariant
                k <= threads,
                v@ == Seq::new(k as nat, |i: int| SpinPc::Idle),
            decreases threads - k,
        {
            v.push(SpinPc::Idle);
            k = k + 1;
            assert(v@ =~= Seq::new(k as nat, |i: int| SpinPc::Idle));
        }
        SpinModel { locked: false, threads: v }
    }

    /// One `swap(true)` by thread `tid`: it takes the lock exactly when the
    /// flag was clear.
    pub fn try_lock(&mut self, tid: usize) -> (acquired: bool)
        requires
            old(self).wf(),
            tid < old(self).threads@.len(),
            old(self).pc(tid as int) is Idle,
        ensures
            final(self).wf(),
            final(self).locked,
            acquired == swap_acquires(old(self).locked),
            acquired ==> final(self).threads@ == old(self).threads@.update(tid as int, SpinPc::Holding),
            !acquired ==> final(self).threads@ == old(self).threads@,
    {
        let previous = self.locked;
        self.locked = true;
        if acquired_after_swap(previous) {
            let ghost pre = self.threads@;
            self.threads.set(tid, SpinPc::Holding);
            proof {
                let post = self.threads@;
                assert(spin_holding(post[tid as int]));
                assert forall|i: int, j: int|
                    0 <= i < post.len() && 0 <= j < post.len()
                        && #[trigger] spin_holding(post[i]) && #[trigger] spin_holding(post[j]) implies i == j by {
                    if i != tid as int { assert(spin_holding(pre[i])); }
                    if j != tid as int { assert(spin_holding(pre[j])); }
                }
            }
            true
        } else {
            false
        }
    }

    /// `unlock` by the holder `tid`: clears the flag.
    pub fn unlock(&mut self, tid: usize)
        requires
            old(self).wf(),
            tid < old(self).threads@.len(),
            old(self).pc(tid as int) is Holding,
        ensures
            final(self).wf(),
            !final(self).locked,
            final(self).threads@ == old(self).threads@.update(tid as int, SpinPc::Idle),
    {
        let ghost pre = self.threads@;
        self.locked = false;
        self.threads.set(tid, SpinPc::Idle);
        proof {
            let post = self.threads@;
            assert(spin_holding(pre[tid as int]));
            if exists|i: int| 0 <= i < post.len() && #[trigger] spin_holding(post[i]) {
                let i = choose|i: int| 0 <= i < post.len() && #[trigger] spin_holding(post[i]);
                assert(spin_holding(pre[i]));
            }
        }
    }
}

/// Mutual exclusion: at most one thread holds the spin lock.
pub proof fn lemma_spin_exclusive(m: &SpinModel, i: int, j: int)
    requires
        m.wf(),
        0 <= i < m.threads@.len(),
        0 <= j < m.threads@.len(),
        m.pc(i) is Holding,
        m.pc(j) is Holding,
    ensures
        i == j,
{
    assert(spin_holding(m.threads@[i]) && spin_holding(m.threads@[j]));
}

/// After the holder unlocks, the next swap by any idle thread takes the lock.
pub proof fn lemma_spin_unlock_then_lock(m: &SpinModel)
    requires
        m.wf(),
        !m.locked,
    ensures
        swap_acquires(m.locked),
        forall|i: int| 0 <= i < m.threads@.len() ==> !(#[trigger] m.threads@[i] is Holding),
{
    assert forall|i: int| 0 <= i < m.threads@.len() implies !(#[trigger] m.threads@[i] is Holding) by {
        if m.threads@[i] is Holding {
            assert(spin_holding(m.threads@[i]));
        }
    }
}

} // verus!

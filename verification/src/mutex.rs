use crate::platform::{futex_wait, futex_wake_one, spin_hint};
use std::sync::atomic::AtomicU32;
use std::sync::atomic::Ordering;
use vstd::prelude::*;

verus! {

/// Nobody holds the mutex.
pub const UNLOCKED: u32 = 0;

/// The mutex is held and no thread sleeps on it.
pub const LOCKED: u32 = 1;

/// The mutex is held and threads may sleep on it.
pub const CONTENDED: u32 = 2;

/// How many times the slow path looks at a held, uncontended mutex before it
/// goes to sleep.
pub const SPIN_LIMIT: u32 = 100;

/// The spinning phase goes on while the mutex is held without sleepers and
/// the spin budget is not spent.
pub open spec fn spec_keeps_spinning(observed: u32, spins: u32) -> bool {
    observed == LOCKED && spins < SPIN_LIMIT
}

/// A `swap(CONTENDED)` takes the mutex exactly when it was unlocked.
pub open spec fn spec_swap_acquires(previous: u32) -> bool {
    previous == UNLOCKED
}

/// Unlocking must wake a sleeper exactly when the state said there may be one.
pub open spec fn spec_unlock_wakes(previous: u32) -> bool {
    previous == CONTENDED
}

/// Decides whether the spinning phase of the slow path goes on.
pub fn keeps_spinning(observed: u32, spins: u32) -> (more: bool)
    ensures
        more == spec_keeps_spinning(observed, spins),
{
    observed == LOCKED && spins < SPIN_LIMIT
}

/// Decides, from what `swap(CONTENDED)` returned, whether the caller holds the
/// mutex.
pub fn swap_acquires(previous: u32) -> (acquired: bool)
    ensures
        acquired == spec_swap_acquires(previous),
{
    previous == UNLOCKED
}

/// Decides, from what `swap(UNLOCKED)` returned on unlock, whether a sleeper
/// must be woken.
pub fn unlock_wakes(previous: u32) -> (wake: bool)
    ensures
        wake == spec_unlock_wakes(previous),
{
    previous == CONTENDED
}

/// The state word of a futex-based mutex: `UNLOCKED`, `LOCKED` or
/// `CONTENDED`. The value it guards is kept by the caller.
pub struct RawMutex {
    state: AtomicU32,
}

impl RawMutex {
    /// An unlocked mutex.
    pub fn new() -> (mutex: RawMutex) {
        RawMutex { state: AtomicU32::new(UNLOCKED) }
    }

    /// The fast path of `lock`: one `compare_exchange(UNLOCKED, LOCKED)`.
    /// Returns whether it took the mutex; that depends on the other threads,
    /// so no clause fixes it.
    pub fn try_lock(&self) -> (acquired: bool) {
        match self.state.compare_exchange(UNLOCKED, LOCKED, Ordering::Acquire, Ordering::Relaxed) {
            Result::Ok(_) => true,
            Result::Err(_) => false,
        }
    }

    /// The first part of the slow path: spins while the mutex is held without
    /// sleepers, at most `SPIN_LIMIT` times, then tries the fast path once
    /// more. Returns whether that took the mutex.
    pub fn try_lock_after_spinning(&self) -> (acquired: bool) {
        let mut spins: u32 = 0;
        loop
            invariant
                spins <= SPIN_LIMIT,
            decreases SPIN_LIMIT - spins,
        {
            let observed = self.state.load(Ordering::Relaxed);
            if !keeps_spinning(observed, spins) {
                break;
            }
            spins = spins + 1;
            spin_hint();
        }
        self.try_lock()
    }

    /// One round of the sleeping part of the slow path: marks the mutex
    /// contended with a swap; if it was unlocked the caller now holds it,
    /// otherwise the caller sleeps while the state stays `CONTENDED` and
    /// reports that it has not taken the mutex.
    pub fn lock_contended_round(&self) -> (acquired: bool) {
        let previous = self.state.swap(CONTENDED, Ordering::Acquire);
        if swap_acquires(previous) {
            true
        } else {
            futex_wait(&self.state, CONTENDED);
            false
        }
    }

    /// Releases the mutex, and wakes one sleeper if the state was `CONTENDED`.
    pub fn unlock(&self) {
        let previous = self.state.swap(UNLOCKED, Ordering::Release);
        if unlock_wakes(previous) {
            futex_wake_one(&self.state);
        }
    }
}

/// Where a thread stands in the mutex protocol. Each step between two of
/// these is one atomic operation or one futex call of `RawMutex`.
#[derive(Clone, Copy, PartialEq, Eq, Debug)]
pub enum MutexPc {
    /// Does not hold the mutex and is not trying to.
    Idle,
    /// In the spinning phase, after `spins` looks.
    Spinning { spins: u32 },
    /// About to try the fast path once more after spinning.
    Retrying,
    /// About to `swap(CONTENDED)`.
    Swapping,
    /// About to call the futex wait with `CONTENDED`.
    Waiting,
    /// Sleeping in the futex wait.
    Asleep,
    /// Holds the mutex.
    Holding,
    /// Has unlocked a contended mutex and is about to wake one sleeper.
    Waking,
}

pub open spec fn pc_holding(pc: MutexPc) -> bool {
    pc is Holding
}

pub open spec fn pc_asleep(pc: MutexPc) -> bool {
    pc is Asleep
}

/// A thread that will still write `CONTENDED` or wake a sleeper.
pub open spec fn pc_vouches(pc: MutexPc) -> bool {
    pc is Waking || pc is Swapping || pc is Waiting
}

/// The shared state word and where each thread stands: a model of every
/// interleaving of `RawMutex`'s operations.
pub struct MutexModel {
    pub state: u32,
    pub threads: Vec<MutexPc>,
}

impl MutexModel {
    pub open spec fn holders_unique(&self) -> bool {
        forall|i: int, j: int|
            0 <= i < self.threads@.len() && 0 <= j < self.threads@.len()
                && #[trigger] pc_holding(self.threads@[i]) && #[trigger] pc_holding(self.threads@[j])
                ==> i == j
    }

    pub open spec fn someone_holds(&self) -> bool {
        exists|i: int| 0 <= i < self.threads@.len() && #[trigger] pc_holding(self.threads@[i])
    }

    pub open spec fn someone_asleep(&self) -> bool {
        exists|i: int| 0 <= i < self.threads@.len() && #[trigger] pc_asleep(self.threads@[i])
    }

    pub open spec fn someone_vouches(&self) -> bool {
        exists|i: int| 0 <= i < self.threads@.len() && #[trigger] pc_vouches(self.threads@[i])
    }

    /// The protocol's invariant: the state word is one of its three values,
    /// it is `UNLOCKED` exactly when nobody holds the mutex, at most one
    /// thread holds it, and while a thread sleeps either the state is
    /// `CONTENDED` or some thread will still write `CONTENDED` or wake.
    pub open spec fn wf(&self) -> bool {
        &&& self.state <= CONTENDED
        &&& self.holders_unique()
        &&& (self.state == UNLOCKED <==> !self.someone_holds())
        &&& (self.someone_asleep() ==> self.state == CONTENDED || self.someone_vouches())
    }

    pub open spec fn pc(&self, tid: int) -> MutexPc {
        self.threads@[tid]
    }

    /// `threads` idle threads and an unlocked mutex.
    pub fn new(threads: usize) -> (m: MutexModel)
        ensures
            m.wf(),
            m.state == UNLOCKED,
            m.threads@ == Seq::new(threads as nat, |i: int| MutexPc::Idle),
    {
        let mut v: Vec<MutexPc> = Vec::new();
        let mut k: usize = 0;
        while k < threads
            invariant
                k <= threads,
                v@ == Seq::new(k as nat, |i: int| MutexPc::Idle),
            decreases threads - k,
        {
            v.push(MutexPc::Idle);
            k = k + 1;
            assert(v@ =~= Seq::new(k as nat, |i: int| MutexPc::Idle));
        }
        MutexModel { state: UNLOCKED, threads: v }
    }

    /// The fast path of `lock` by thread `tid`: `compare_exchange(UNLOCKED,
    /// LOCKED)`.
    pub fn lock_fast(&mut self, tid: usize)
        requires
            old(self).wf(),
            tid < old(self).threads@.len(),
            old(self).pc(tid as int) is Idle,
        ensures
            final(self).wf(),
            old(self).state == UNLOCKED ==> final(self).state == LOCKED
                && final(self).threads@ == old(self).threads@.update(tid as int, MutexPc::Holding),
            old(self).state != UNLOCKED ==> final(self).state == old(self).state
                && final(self).threads@ == old(self).threads@.update(tid as int, MutexPc::Spinning { spins: 0 }),
    {
        let ghost pre = self.threads@;
        if self.state == UNLOCKED {
            self.state = LOCKED;
            self.threads.set(tid, MutexPc::Holding);
            proof { self.lemma_acquire_keeps_invariant(pre, tid as int); }
        } else {
            self.threads.set(tid, MutexPc::Spinning { spins: 0 });
            proof { self.lemma_neutral_step_keeps_invariant(pre, old(self).state, tid as int); }
        }
    }

    /// The fast path of `lock` in the mutex that does not spin: on failure
    /// thread `tid` goes straight to `swap(CONTENDED)`.
    pub fn lock_fast_no_spin(&mut self, tid: usize)
        requires
            old(self).wf(),
            tid < old(self).threads@.len(),
            old(self).pc(tid as int) is Idle,
        ensures
            final(self).wf(),
            old(self).state == UNLOCKED ==> final(self).state == LOCKED
                && final(self).threads@ == old(self).threads@.update(tid as int, MutexPc::Holding),
            old(self).state != UNLOCKED ==> final(self).state == old(self).state
                && final(self).threads@ == old(self).threads@.update(tid as int, MutexPc::Swapping),
    {
        let ghost pre = self.threads@;
        if self.state == UNLOCKED {
            self.state = LOCKED;
            self.threads.set(tid, MutexPc::Holding);
            proof { self.lemma_acquire_keeps_invariant(pre, tid as int); }
        } else {
            self.threads.set(tid, MutexPc::Swapping);
            proof { self.lemma_neutral_step_keeps_invariant(pre, old(self).state, tid as int); }
        }
    }

    /// One look of the spinning phase by thread `tid`.
    pub fn spin(&mut self, tid: usize)
        requires
            old(self).wf(),
            tid < old(self).threads@.len(),
            old(self).pc(tid as int) is Spinning,
        ensures
            final(self).wf(),
            final(self).state == old(self).state,
            ({
                let spins = old(self).pc(tid as int)->spins;
                if spec_keeps_spinning(old(self).state, spins) {
                    final(self).threads@ == old(self).threads@.update(tid as int, MutexPc::Spinning { spins: (spins + 1) as u32 })
                } else {
                    final(self).threads@ == old(self).threads@.update(tid as int, MutexPc::Retrying)
                }
            }),
    {
        let ghost pre = self.threads@;
        let pc = self.threads[tid];
        match pc {
            MutexPc::Spinning { spins } => {
                if keeps_spinning(self.state, spins) {
                    self.threads.set(tid, MutexPc::Spinning { spins: spins + 1 });
                } else {
                    self.threads.set(tid, MutexPc::Retrying);
                }
            },
            _ => {},
        }
        proof { self.lemma_neutral_step_keeps_invariant(pre, old(self).state, tid as int); }
    }

    /// The attempt after spinning by thread `tid`:
    /// `compare_exchange(UNLOCKED, LOCKED)`.
    pub fn retry(&mut self, tid: usize)
        requires
            old(self).wf(),
            tid < old(self).threads@.len(),
            old(self).pc(tid as int) is Retrying,
        ensures
            final(self).wf(),
            old(self).state == UNLOCKED ==> final(self).state == LOCKED
                && final(self).threads@ == old(self).threads@.update(tid as int, MutexPc::Holding),
            old(self).state != UNLOCKED ==> final(self).state == old(self).state
                && final(self).threads@ == old(self).threads@.update(tid as int, MutexPc::Swapping),
    {
        let ghost pre = self.threads@;
        if self.state == UNLOCKED {
            self.state = LOCKED;
            self.threads.set(tid, MutexPc::Holding);
            proof { self.lemma_acquire_keeps_invariant(pre, tid as int); }
        } else {
            self.threads.set(tid, MutexPc::Swapping);
            proof { self.lemma_neutral_step_keeps_invariant(pre, old(self).state, tid as int); }
        }
    }

    /// `swap(CONTENDED)` by thread `tid`.
    pub fn swap(&mut self, tid: usize)
        requires
            old(self).wf(),
            tid < old(self).threads@.len(),
            old(self).pc(tid as int) is Swapping,
        ensures
            final(self).wf(),
            final(self).state == CONTENDED,
            spec_swap_acquires(old(self).state) ==> final(self).threads@ == old(self).threads@.update(tid as int, MutexPc::Holding),
            !spec_swap_acquires(old(self).state) ==> final(self).threads@ == old(self).threads@.update(tid as int, MutexPc::Waiting),
    {
        let ghost pre = self.threads@;
        let previous = self.state;
        self.state = CONTENDED;
        if swap_acquires(previous) {
            self.threads.set(tid, MutexPc::Holding);
            proof { self.lemma_acquire_keeps_invariant(pre, tid as int); }
        } else {
            self.threads.set(tid, MutexPc::Waiting);
            proof { self.lemma_contended_step_keeps_invariant(pre, old(self).state, tid as int); }
        }
    }

    /// The futex wait on `CONTENDED` by thread `tid`: it sleeps if the state
    /// is still `CONTENDED`, and otherwise returns at once.
    pub fn wait(&mut self, tid: usize)
        requires
            old(self).wf(),
            tid < old(self).threads@.len(),
            old(self).pc(tid as int) is Waiting,
        ensures
            final(self).wf(),
            final(self).state == old(self).state,
            old(self).state == CONTENDED ==> final(self).threads@ == old(self).threads@.update(tid as int, MutexPc::Asleep),
            old(self).state != CONTENDED ==> final(self).threads@ == old(self).threads@.update(tid as int, MutexPc::Swapping),
    {
        let ghost pre = self.threads@;
        if self.state == CONTENDED {
            self.threads.set(tid, MutexPc::Asleep);
            proof { self.lemma_contended_step_keeps_invariant(pre, old(self).state, tid as int); }
        } else {
            self.threads.set(tid, MutexPc::Swapping);
            proof { self.lemma_neutral_step_keeps_invariant(pre, old(self).state, tid as int); }
        }
    }

    /// A sleeping thread `tid` returns from the futex wait without a wake, as
    /// the futex may.
    pub fn wake_spuriously(&mut self, tid: usize)
        requires
            old(self).wf(),
            tid < old(self).threads@.len(),
            old(self).pc(tid as int) is Asleep,
        ensures
            final(self).wf(),
            final(self).state == old(self).state,
            final(self).threads@ == old(self).threads@.update(tid as int, MutexPc::Swapping),
    {
        let ghost pre = self.threads@;
        self.threads.set(tid, MutexPc::Swapping);
        proof { self.lemma_neutral_step_keeps_invariant(pre, old(self).state, tid as int); }
    }

    /// `unlock` by thread `tid`: `swap(UNLOCKED)`.
    pub fn unlock(&mut self, tid: usize)
        requires
            old(self).wf(),
            tid < old(self).threads@.len(),
            old(self).pc(tid as int) is Holding,
        ensures
            final(self).wf(),
            final(self).state == UNLOCKED,
            spec_unlock_wakes(old(self).state) ==> final(self).threads@ == old(self).threads@.update(tid as int, MutexPc::Waking),
            !spec_unlock_wakes(old(self).state) ==> final(self).threads@ == old(self).threads@.update(tid as int, MutexPc::Idle),
    {
        let ghost pre = self.threads@;
        let previous = self.state;
        self.state = UNLOCKED;
        if unlock_wakes(previous) {
            self.threads.set(tid, MutexPc::Waking);
        } else {
            self.threads.set(tid, MutexPc::Idle);
        }
        proof { self.lemma_release_keeps_invariant(pre, old(self).state, tid as int); }
    }

    /// The futex wake of thread `tid` after a contended unlock. `woken` is
    /// the sleeper that the futex picks; there must be one when any thread
    /// sleeps, and none otherwise.
    pub fn wake(&mut self, tid: usize, woken: Option<usize>)
        requires
            old(self).wf(),
            tid < old(self).threads@.len(),
            old(self).pc(tid as int) is Waking,
            woken is Some ==> woken->0 < old(self).threads@.len() && old(self).pc(woken->0 as int) is Asleep,
            old(self).someone_asleep() ==> woken is Some,
        ensures
            final(self).wf(),
            final(self).state == old(self).state,
            woken is Some ==> final(self).threads@
                == old(self).threads@.update(woken->0 as int, MutexPc::Swapping).update(tid as int, MutexPc::Idle),
            woken is None ==> final(self).threads@ == old(self).threads@.update(tid as int, MutexPc::Idle),
    {
        match woken {
            Option::Some(w) => {
                self.wake_spuriously(w);
            },
            Option::None => {},
        }
        let ghost mid = self.threads@;
        proof {
            match woken {
                Option::Some(w) => {
                    assert(pc_vouches(mid[w as int]));
                },
                Option::None => {
                    assert(!(exists|i: int| 0 <= i < mid.len() && #[trigger] pc_asleep(mid[i])));
                },
            }
        }
        self.threads.set(tid, MutexPc::Idle);
        proof { self.lemma_neutral_step_keeps_invariant(mid, old(self).state, tid as int); }
    }

    /// A step that takes the mutex: before it nobody held it or the thread
    /// swapped it from `UNLOCKED`, and afterwards only `tid` holds it and the
    /// state is not `UNLOCKED`.
    proof fn lemma_acquire_keeps_invariant(&self, pre: Seq<MutexPc>, tid: int)
        requires
            0 <= tid < pre.len(),
            !pc_holding(pre[tid]),
            !pc_asleep(pre[tid]),
            forall|i: int| 0 <= i < pre.len() ==> !#[trigger] pc_holding(pre[i]),
            self.threads@ == pre.update(tid, MutexPc::Holding),
            self.state == LOCKED || self.state == CONTENDED,
            (exists|i: int| 0 <= i < pre.len() && #[trigger] pc_asleep(pre[i])) ==> (
                self.state == CONTENDED || exists|i: int| 0 <= i < pre.len() && i != tid && #[trigger] pc_vouches(pre[i])),
        ensures
            self.wf(),
    {
        let post = self.threads@;
        assert(pc_holding(post[tid]));
        assert forall|i: int, j: int|
            0 <= i < post.len() && 0 <= j < post.len()
                && #[trigger] pc_holding(post[i]) && #[trigger] pc_holding(post[j])
            implies i == j by {
            if i != tid { assert(pc_holding(pre[i])); }
            if j != tid { assert(pc_holding(pre[j])); }
        }
        if self.someone_asleep() {
            let i = choose|i: int| 0 <= i < post.len() && #[trigger] pc_asleep(post[i]);
            assert(i != tid);
            assert(pc_asleep(pre[i]));
            if self.state != CONTENDED {
                let j = choose|j: int| 0 <= j < pre.len() && j != tid && #[trigger] pc_vouches(pre[j]);
                assert(pc_vouches(post[j]));
            }
        }
    }

    /// A step of thread `tid` that leaves the state word as it was, does not
    /// take or release the mutex, and leaves `tid` neither holding nor
    /// asleep.
    proof fn lemma_neutral_step_keeps_invariant(&self, pre: Seq<MutexPc>, pre_state: u32, tid: int)
        requires
            0 <= tid < pre.len(),
            !pc_holding(pre[tid]),
            self.threads@.len() == pre.len(),
            self.threads@ == pre.update(tid, self.threads@[tid]),
            !pc_holding(self.threads@[tid]),
            !pc_asleep(self.threads@[tid]),
            pc_vouches(pre[tid]) && !pc_vouches(self.threads@[tid]) ==>
                (exists|j: int| 0 <= j < pre.len() && j != tid && #[trigger] pc_vouches(pre[j]))
                || !(exists|i: int| 0 <= i < pre.len() && #[trigger] pc_asleep(pre[i])),
            self.state == pre_state,
            pre_state <= CONTENDED,
            forall|i: int, j: int|
                0 <= i < pre.len() && 0 <= j < pre.len()
                    && #[trigger] pc_holding(pre[i]) && #[trigger] pc_holding(pre[j]) ==> i == j,
            (pre_state == UNLOCKED <==> !exists|i: int| 0 <= i < pre.len() && #[trigger] pc_holding(pre[i])),
            (exists|i: int| 0 <= i < pre.len() && #[trigger] pc_asleep(pre[i])) ==> pre_state == CONTENDED
                || exists|i: int| 0 <= i < pre.len() && #[trigger] pc_vouches(pre[i]),
        ensures
            self.wf(),
    {
        let post = self.threads@;
        assert forall|i: int, j: int|
            0 <= i < post.len() && 0 <= j < post.len()
                && #[trigger] pc_holding(post[i]) && #[trigger] pc_holding(post[j])
            implies i == j by {
            assert(pc_holding(pre[i]) && pc_holding(pre[j]));
        }
        if self.someone_holds() {
            let i = choose|i: int| 0 <= i < post.len() && #[trigger] pc_holding(post[i]);
            assert(pc_holding(pre[i]));
        }
        if exists|i: int| 0 <= i < pre.len() && #[trigger] pc_holding(pre[i]) {
            let i = choose|i: int| 0 <= i < pre.len() && #[trigger] pc_holding(pre[i]);
            assert(i != tid);
            assert(pc_holding(post[i]));
        }
        if self.someone_asleep() && self.state != CONTENDED {
            let i = choose|i: int| 0 <= i < post.len() && #[trigger] pc_asleep(post[i]);
            assert(pc_asleep(pre[i]));
            let j = choose|j: int| 0 <= j < pre.len() && #[trigger] pc_vouches(pre[j]);
            if j != tid {
                assert(pc_vouches(post[j]));
            } else if !pc_vouches(post[tid]) {
                assert(i != tid);
                let k = choose|k: int| 0 <= k < pre.len() && k != tid && #[trigger] pc_vouches(pre[k]);
                assert(pc_vouches(post[k]));
            }
        }
    }

    /// A step of thread `tid` that does not take the mutex and leaves the
    /// state `CONTENDED`: it either writes `CONTENDED` or goes to sleep on it.
    proof fn lemma_contended_step_keeps_invariant(&self, pre: Seq<MutexPc>, pre_state: u32, tid: int)
        requires
            0 <= tid < pre.len(),
            !pc_holding(pre[tid]),
            self.threads@ == pre.update(tid, self.threads@[tid]),
            !pc_holding(self.threads@[tid]),
            self.state == CONTENDED,
            pre_state != UNLOCKED,
            pre_state <= CONTENDED,
            forall|i: int, j: int|
                0 <= i < pre.len() && 0 <= j < pre.len()
                    && #[trigger] pc_holding(pre[i]) && #[trigger] pc_holding(pre[j]) ==> i == j,
            (pre_state == UNLOCKED <==> !exists|i: int| 0 <= i < pre.len() && #[trigger] pc_holding(pre[i])),
        ensures
            self.wf(),
    {
        let post = self.threads@;
        assert forall|i: int, j: int|
            0 <= i < post.len() && 0 <= j < post.len()
                && #[trigger] pc_holding(post[i]) && #[trigger] pc_holding(post[j])
            implies i == j by {
            assert(pc_holding(pre[i]) && pc_holding(pre[j]));
        }
        let i = choose|i: int| 0 <= i < pre.len() && #[trigger] pc_holding(pre[i]);
        assert(i != tid);
        assert(pc_holding(post[i]));
    }

    /// The unlock step of the holder `tid`: afterwards nobody holds the mutex
    /// and the state is `UNLOCKED`; the holder becomes `Waking` when the state
    /// was `CONTENDED` and `Idle` otherwise.
    proof fn lemma_release_keeps_invariant(&self, pre: Seq<MutexPc>, pre_state: u32, tid: int)
        requires
            0 <= tid < pre.len(),
            pc_holding(pre[tid]),
            pre_state <= CONTENDED,
            forall|i: int, j: int|
                0 <= i < pre.len() && 0 <= j < pre.len()
                    && #[trigger] pc_holding(pre[i]) && #[trigger] pc_holding(pre[j]) ==> i == j,
            (exists|i: int| 0 <= i < pre.len() && #[trigger] pc_asleep(pre[i])) ==> pre_state == CONTENDED
                || exists|i: int| 0 <= i < pre.len() && #[trigger] pc_vouches(pre[i]),
            self.state == UNLOCKED,
            pre_state == CONTENDED ==> self.threads@ == pre.update(tid, MutexPc::Waking),
            pre_state != CONTENDED ==> self.threads@ == pre.update(tid, MutexPc::Idle),
        ensures
            self.wf(),
    {
        let post = self.threads@;
        assert forall|i: int, j: int|
            0 <= i < post.len() && 0 <= j < post.len()
                && #[trigger] pc_holding(post[i]) && #[trigger] pc_holding(post[j])
            implies i == j by {
            assert(pc_holding(pre[i]) && pc_holding(pre[j]));
        }
        if self.someone_holds() {
            let i = choose|i: int| 0 <= i < post.len() && #[trigger] pc_holding(post[i]);
            assert(pc_holding(pre[i]));
            assert(i == tid);
        }
        if self.someone_asleep() {
            let i = choose|i: int| 0 <= i < post.len() && #[trigger] pc_asleep(post[i]);
            assert(pc_asleep(pre[i]));
            if pre_state == CONTENDED {
                assert(pc_vouches(post[tid]));
            } else {
                let j = choose|j: int| 0 <= j < pre.len() && #[trigger] pc_vouches(pre[j]);
                assert(j != tid);
                assert(pc_vouches(post[j]));
            }
        }
    }
}

/// Mutual exclusion: in every reachable state at most one thread holds the
/// mutex.
pub proof fn lemma_mutex_exclusive(m: &MutexModel, i: int, j: int)
    requires
        m.wf(),
        0 <= i < m.threads@.len(),
        0 <= j < m.threads@.len(),
        m.pc(i) is Holding,
        m.pc(j) is Holding,
    ensures
        i == j,
{
    assert(pc_holding(m.threads@[i]) && pc_holding(m.threads@[j]));
}

/// The state word tells whether the mutex is held: it is `UNLOCKED` exactly
/// when no thread holds the mutex.
pub proof fn lemma_mutex_state_tells_held(m: &MutexModel)
    requires
        m.wf(),
    ensures
        m.state == UNLOCKED <==> !(exists|i: int| 0 <= i < m.threads@.len() && (#[trigger] m.threads@[i]) is Holding),
{
    if exists|i: int| 0 <= i < m.threads@.len() && (#[trigger] m.threads@[i]) is Holding {
        let i = choose|i: int| 0 <= i < m.threads@.len() && (#[trigger] m.threads@[i]) is Holding;
        assert(pc_holding(m.threads@[i]));
    }
    if m.someone_holds() {
        let i = choose|i: int| 0 <= i < m.threads@.len() && #[trigger] pc_holding(m.threads@[i]);
        assert(m.threads@[i] is Holding);
    }
}

/// No lost wake-up: while some thread sleeps on the mutex, either the state
/// is `CONTENDED`, so that the holder's unlock will wake a sleeper, or some
/// thread is about to write `CONTENDED` or to wake a sleeper.
pub proof fn lemma_mutex_no_lost_wakeup(m: &MutexModel, sleeper: int)
    requires
        m.wf(),
        0 <= sleeper < m.threads@.len(),
        m.pc(sleeper) is Asleep,
    ensures
        m.state == CONTENDED || exists|i: int|
            0 <= i < m.threads@.len() && #[trigger] pc_vouches(m.threads@[i]),
{
    assert(pc_asleep(m.threads@[sleeper]));
}

/// A thread whose next step does not wait for another thread: every pc but
/// `Idle` and `Asleep` has a step that the model can always take.
pub open spec fn pc_can_step(pc: MutexPc) -> bool {
    !(pc is Idle) && !(pc is Asleep)
}

/// No deadlock: while any thread is inside `lock`, holds the mutex or is
/// waking, some thread can take a step without waiting for another, so the
/// threads cannot all be stuck asleep.
pub proof fn lemma_mutex_deadlock_free(m: &MutexModel, t: int)
    requires
        m.wf(),
        0 <= t < m.threads@.len(),
        !(m.pc(t) is Idle),
    ensures
        exists|i: int| 0 <= i < m.threads@.len() && #[trigger] pc_can_step(m.threads@[i]),
{
    if pc_can_step(m.threads@[t]) {
        return;
    }
    assert(pc_asleep(m.threads@[t]));
    if m.state == CONTENDED {
        let h = choose|i: int| 0 <= i < m.threads@.len() && #[trigger] pc_holding(m.threads@[i]);
        assert(pc_can_step(m.threads@[h]));
    } else {
        let v = choose|i: int| 0 <= i < m.threads@.len() && #[trigger] pc_vouches(m.threads@[i]);
        assert(pc_can_step(m.threads@[v]));
    }
}

/// `swap(CONTENDED)` takes the mutex only from the unlocked state: for every
/// value it replaces, it acquires exactly when that value is 0.
pub proof fn lemma_swap_acquires_only_unlocked(previous: u32)
    ensures
        spec_swap_acquires(previous) <==> previous == 0,
        previous == LOCKED ==> !spec_swap_acquires(previous),
        previous == CONTENDED ==> !spec_swap_acquires(previous),
{
}

/// A thread of the slow path never takes a mutex that another thread holds:
/// in every reachable state where some other thread holds the mutex, the
/// swapping thread's `swap(CONTENDED)` does not acquire, and it goes to wait.
pub proof fn lemma_mutex_swap_respects_holder(m: &MutexModel, tid: int, holder: int)
    requires
        m.wf(),
        0 <= tid < m.threads@.len(),
        0 <= holder < m.threads@.len(),
        m.pc(tid) is Swapping,
        m.pc(holder) is Holding,
    ensures
        m.state == LOCKED || m.state == CONTENDED,
        !spec_swap_acquires(m.state),
{
    assert(pc_holding(m.threads@[holder]));
}

} // verus!

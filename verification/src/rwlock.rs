use crate::platform::{futex_wait, futex_wake_all, futex_wake_one};
use std::sync::atomic::AtomicU32;
use std::sync::atomic::Ordering;
use vstd::prelude::*;

verus! {

/// The state word's value while a writer holds the lock; any smaller value is
/// the number of readers.
pub const WRITE_LOCKED: u32 = 0xffff_ffff;

/// The largest number of readers: a reader that sees this many refuses to
/// join ("too many readers").
pub const MAX_READERS: u32 = 0xffff_fffe;

/// A reader tries to join exactly when no writer holds the lock.
pub open spec fn spec_read_tries(observed: u32) -> bool {
    observed < WRITE_LOCKED
}

/// The reader that leaves last wakes a sleeper.
pub open spec fn spec_read_unlock_wakes(previous: u32) -> bool {
    previous == 1
}

/// Decides whether a reader that saw `observed` tries to join.
pub fn read_tries(observed: u32) -> (tries: bool)
    ensures
        tries == spec_read_tries(observed),
{
    observed < WRITE_LOCKED
}

/// A reader that saw the lock write locked sleeps until that changes.
pub open spec fn spec_read_waits(seen: u32) -> bool {
    seen == WRITE_LOCKED
}

/// Decides whether a reader that saw `seen` (at first, or as the value a
/// failed `compare_exchange_weak` returned) sleeps on the write lock and
/// looks again.
pub fn read_waits(seen: u32) -> (waits: bool)
    ensures
        waits == spec_read_waits(seen),
{
    seen == WRITE_LOCKED
}

/// Decides, from what the reader's `fetch_sub(1)` returned, whether it wakes a
/// sleeper.
pub fn read_unlock_wakes(previous: u32) -> (wake: bool)
    ensures
        wake == spec_read_unlock_wakes(previous),
{
    previous == 1
}

/// What one round of `read` ended with.
#[derive(Clone, Copy, PartialEq, Eq, Debug)]
pub enum ReadRound {
    /// The caller is now a reader.
    Acquired,
    /// Not yet; the next round starts from this observed state.
    Retry(u32),
}

/// The state word of a futex-based reader-writer lock. The value it guards
/// is kept by the caller.
pub struct RawRwLock {
    state: AtomicU32,
}

impl RawRwLock {
    /// An unlocked lock.
    pub fn new() -> (lock: RawRwLock) {
        RawRwLock { state: AtomicU32::new(0) }
    }

    /// The state word as a reader first sees it.
    pub fn observe(&self) -> (state: u32) {
        self.state.load(Ordering::Relaxed)
    }

    /// One round of `read`, starting from the observed state `observed`: if
    /// no writer held the lock it tries to add a reader with
    /// `compare_exchange_weak`; if the lock is, or turned out to be, write
    /// locked, it sleeps while it stays so and looks again.
    pub fn read_round(&self, observed: u32) -> (round: ReadRound)
        requires
            observed != MAX_READERS,
        ensures
            round is Acquired ==> spec_read_tries(observed),
            observed == WRITE_LOCKED ==> round is Retry,
    {
        let mut s = observed;
        if read_tries(s) {
            match self.state.compare_exchange_weak(s, s + 1, Ordering::Acquire, Ordering::Relaxed) {
                Result::Ok(_) => {
                    return ReadRound::Acquired;
                },
                Result::Err(e) => {
                    s = e;
                },
            }
        }
        if read_waits(s) {
            futex_wait(&self.state, WRITE_LOCKED);
            s = self.state.load(Ordering::Relaxed);
        }
        ReadRound::Retry(s)
    }

    /// One round of `write`: `compare_exchange(0, WRITE_LOCKED)`; on failure
    /// it sleeps while the state keeps the value it saw. Returns whether the
    /// caller now holds the lock.
    pub fn write_round(&self) -> (acquired: bool) {
        match self.state.compare_exchange(0, WRITE_LOCKED, Ordering::Acquire, Ordering::Relaxed) {
            Result::Ok(_) => true,
            Result::Err(s) => {
                futex_wait(&self.state, s);
                false
            },
        }
    }

    /// A reader leaves; the last one wakes a sleeper.
    pub fn read_unlock(&self) {
        let previous = self.state.fetch_sub(1, Ordering::Release);
        if read_unlock_wakes(previous) {
            futex_wake_one(&self.state);
        }
    }

    /// The writer leaves and wakes every sleeper.
    pub fn write_unlock(&self) {
        self.state.store(0, Ordering::Release);
        futex_wake_all(&self.state);
    }
}

/// Where a thread stands in the reader-writer protocol. Each step between two
/// of these is one atomic operation or one futex call of `RawRwLock`.
#[derive(Clone, Copy, PartialEq, Eq, Debug)]
pub enum RwPc {
    /// Neither reading, writing nor trying to.
    Idle,
    /// A reader about to try to join, having seen `seen`.
    ReadTrying { seen: u32 },
    /// A reader about to call the futex wait with `WRITE_LOCKED`.
    ReadWaiting,
    /// A reader sleeping in the futex wait.
    ReadAsleep,
    /// A reader about to look at the state again after waiting.
    ReadReloading,
    /// Holds the lock for reading.
    Reading,
    /// The last reader out, about to wake a sleeper.
    ReadWaking,
    /// A writer about to `compare_exchange(0, WRITE_LOCKED)`.
    WriteTrying,
    /// A writer about to call the futex wait with the value `seen` it saw.
    WriteWaiting { seen: u32 },
    /// A writer sleeping in the futex wait on `seen`.
    WriteAsleep { seen: u32 },
    /// Holds the lock for writing.
    Writing,
    /// A writer that has left, about to wake every sleeper.
    WriteWaking,
}

pub open spec fn rw_reading(pc: RwPc) -> bool {
    pc is Reading
}

pub open spec fn rw_writing(pc: RwPc) -> bool {
    pc is Writing
}

/// Holds the lock, for reading or for writing.
pub open spec fn rw_holding(pc: RwPc) -> bool {
    pc is Reading || pc is Writing
}

pub open spec fn rw_asleep(pc: RwPc) -> bool {
    pc is ReadAsleep || pc is WriteAsleep
}

/// A thread that is neither idle nor asleep.
pub open spec fn rw_active(pc: RwPc) -> bool {
    !(pc is Idle) && !rw_asleep(pc)
}

/// How many threads hold the lock for reading.
pub open spec fn count_readers(threads: Seq<RwPc>) -> nat
    decreases threads.len(),
{
    if threads.len() == 0 {
        0
    } else {
        count_readers(threads.drop_last()) + if rw_reading(threads.last()) { 1nat } else { 0nat }
    }
}

pub open spec fn reader_weight(pc: RwPc) -> int {
    if rw_reading(pc) { 1 } else { 0 }
}

/// Changing one thread's pc changes the reader count by the difference of
/// the two weights.
pub proof fn lemma_count_readers_update(threads: Seq<RwPc>, i: int, pc: RwPc)
    requires
        0 <= i < threads.len(),
    ensures
        count_readers(threads.update(i, pc)) == count_readers(threads) - reader_weight(threads[i]) + reader_weight(pc),
    decreases threads.len(),
{
    let u = threads.update(i, pc);
    if i == threads.len() - 1 {
        assert(u.drop_last() =~= threads.drop_last());
    } else {
        lemma_count_readers_update(threads.drop_last(), i, pc);
        assert(u.drop_last() =~= threads.drop_last().update(i, pc));
    }
}

/// A positive reader count has a reader behind it.
pub proof fn lemma_count_readers_positive(threads: Seq<RwPc>)
    requires
        count_readers(threads) > 0,
    ensures
        exists|i: int| 0 <= i < threads.len() && #[trigger] rw_reading(threads[i]),
    decreases threads.len(),
{
    if rw_reading(threads.last()) {
        assert(rw_reading(threads[threads.len() - 1]));
    } else {
        lemma_count_readers_positive(threads.drop_last());
        let i = choose|i: int| 0 <= i < threads.drop_last().len() && #[trigger] rw_reading(threads.drop_last()[i]);
        assert(rw_reading(threads[i]));
    }
}

/// With no reader the count is zero.
pub proof fn lemma_count_readers_zero(threads: Seq<RwPc>)
    requires
        forall|i: int| 0 <= i < threads.len() ==> !#[trigger] rw_reading(threads[i]),
    ensures
        count_readers(threads) == 0,
    decreases threads.len(),
{
    if threads.len() > 0 {
        assert(!rw_reading(threads[threads.len() - 1]));
        assert forall|i: int| 0 <= i < threads.drop_last().len() implies !#[trigger] rw_reading(threads.drop_last()[i]) by {
            assert(!rw_reading(threads[i]));
        }
        lemma_count_readers_zero(threads.drop_last());
    }
}

/// The protocol's invariant over the state word and the threads: at most one
/// writer, and it is there exactly when the state is `WRITE_LOCKED`; with a
/// writer there are no readers, and otherwise the state counts the readers;
/// a writer waits only on a nonzero value; and while a thread sleeps some
/// thread is neither idle nor asleep.
pub open spec fn rw_inv(state: u32, threads: Seq<RwPc>) -> bool {
    &&& forall|i: int, j: int|
        0 <= i < threads.len() && 0 <= j < threads.len()
            && #[trigger] rw_writing(threads[i]) && #[trigger] rw_writing(threads[j]) ==> i == j
    &&& (state == WRITE_LOCKED <==> exists|i: int| 0 <= i < threads.len() && #[trigger] rw_writing(threads[i]))
    &&& (state == WRITE_LOCKED ==> forall|i: int| 0 <= i < threads.len() ==> !#[trigger] rw_reading(threads[i]))
    &&& (state < WRITE_LOCKED ==> count_readers(threads) == state)
    &&& forall|i: int| 0 <= i < threads.len() && (#[trigger] threads[i]) is WriteWaiting ==> threads[i]->WriteWaiting_seen != 0
    &&& ((exists|i: int| 0 <= i < threads.len() && #[trigger] rw_asleep(threads[i]))
        ==> exists|i: int| 0 <= i < threads.len() && #[trigger] rw_active(threads[i]))
}

/// What a single step of thread `tid` from `pre[tid]` to `pc`, taking the
/// state from `pre_state` to `post_state`, must satisfy for the invariant to
/// carry over.
pub open spec fn rw_step_allowed(pre_state: u32, pre: Seq<RwPc>, post_state: u32, tid: int, pc: RwPc) -> bool {
    let old_pc = pre[tid];
    &&& (rw_reading(pc) && !rw_reading(old_pc) ==> pre_state < MAX_READERS && post_state == pre_state + 1)
    &&& (rw_reading(old_pc) && !rw_reading(pc) ==> post_state == pre_state - 1)
    &&& (rw_writing(pc) && !rw_writing(old_pc) ==> pre_state == 0 && post_state == WRITE_LOCKED)
    &&& (rw_writing(old_pc) && !rw_writing(pc) ==> post_state == 0)
    &&& (rw_reading(pc) == rw_reading(old_pc) && rw_writing(pc) == rw_writing(old_pc) ==> post_state == pre_state)
    &&& (pc is WriteWaiting ==> pc->WriteWaiting_seen != 0)
    &&& (pc is ReadAsleep && !rw_asleep(old_pc) ==> pre_state == WRITE_LOCKED && !rw_writing(old_pc))
    &&& (pc is WriteAsleep && !rw_asleep(old_pc) ==> pre_state == pc->WriteAsleep_seen && pc->WriteAsleep_seen != 0
        && !rw_writing(old_pc) && !rw_reading(old_pc))
    &&& (pc is Idle && rw_active(old_pc) ==> (rw_reading(old_pc) && pre_state > 1)
        || (exists|j: int| 0 <= j < pre.len() && j != tid && #[trigger] rw_active(pre[j]))
        || !(exists|j: int| 0 <= j < pre.len() && #[trigger] rw_asleep(pre[j])))
}

/// Every step that `rw_step_allowed` admits keeps the invariant.
pub proof fn lemma_rw_step(pre_state: u32, pre: Seq<RwPc>, post_state: u32, tid: int, pc: RwPc)
    requires
        0 <= tid < pre.len(),
        rw_inv(pre_state, pre),
        rw_step_allowed(pre_state, pre, post_state, tid, pc),
    ensures
        rw_inv(post_state, pre.update(tid, pc)),
{
    let post = pre.update(tid, pc);
    let old_pc = pre[tid];
    lemma_count_readers_update(pre, tid, pc);
    if pre_state == WRITE_LOCKED {
        lemma_count_readers_zero(pre);
    }
    assert forall|i: int, j: int|
        0 <= i < post.len() && 0 <= j < post.len()
            && #[trigger] rw_writing(post[i]) && #[trigger] rw_writing(post[j]) implies i == j by {
        if i != tid && j != tid {
            assert(rw_writing(pre[i]) && rw_writing(pre[j]));
        } else if i != tid {
            assert(rw_writing(pre[i]));
        } else if j != tid {
            assert(rw_writing(pre[j]));
        }
    }
    if exists|i: int| 0 <= i < pre.len() && #[trigger] rw_writing(pre[i]) {
        let w = choose|i: int| 0 <= i < pre.len() && #[trigger] rw_writing(pre[i]);
        if w != tid {
            assert(rw_writing(post[w]));
        }
    }
    if exists|i: int| 0 <= i < post.len() && #[trigger] rw_writing(post[i]) {
        let w = choose|i: int| 0 <= i < post.len() && #[trigger] rw_writing(post[i]);
        if w != tid {
            assert(rw_writing(pre[w]));
        }
    }
    if post_state == WRITE_LOCKED {
        assert forall|i: int| 0 <= i < post.len() implies !#[trigger] rw_reading(post[i]) by {
            if i != tid {
                if pre_state != WRITE_LOCKED {
                    if rw_reading(pre[i]) {
                        lemma_reader_counted(pre, i);
                    }
                } else {
                    assert(!rw_reading(pre[i]));
                }
            }
        }
    }
    assert forall|i: int| 0 <= i < post.len() && (#[trigger] post[i]) is WriteWaiting implies post[i]->WriteWaiting_seen != 0 by {
        if i != tid {
            assert(pre[i] is WriteWaiting);
        }
    }
    if exists|i: int| 0 <= i < post.len() && #[trigger] rw_asleep(post[i]) {
        let k = choose|i: int| 0 <= i < post.len() && #[trigger] rw_asleep(post[i]);
        if rw_active(pc) {
            assert(rw_active(post[tid]));
        } else if rw_asleep(pc) && !rw_asleep(old_pc) {
            lemma_holder_other_than(pre_state, pre, tid);
            let h = choose|h: int| 0 <= h < pre.len() && h != tid && #[trigger] rw_holding(pre[h]);
            assert(rw_active(post[h]));
        } else {
            if k != tid {
                assert(rw_asleep(pre[k]));
            } else {
                assert(rw_asleep(old_pc));
                assert(rw_asleep(pre[tid]));
            }
            let a = choose|i: int| 0 <= i < pre.len() && #[trigger] rw_active(pre[i]);
            if a != tid {
                assert(rw_active(post[a]));
            } else if exists|j: int| 0 <= j < pre.len() && j != tid && #[trigger] rw_active(pre[j]) {
                let j = choose|j: int| 0 <= j < pre.len() && j != tid && #[trigger] rw_active(pre[j]);
                assert(rw_active(post[j]));
            } else {
                assert(pc is Idle);
                assert(rw_asleep(pre[k]));
                assert(count_readers(post) > 0);
                lemma_count_readers_positive(post);
                let r = choose|i: int| 0 <= i < post.len() && #[trigger] rw_reading(post[i]);
                assert(rw_active(post[r]));
            }
        }
    }
}

/// A thread that reads is counted.
pub proof fn lemma_reader_counted(threads: Seq<RwPc>, i: int)
    requires
        0 <= i < threads.len(),
        rw_reading(threads[i]),
    ensures
        count_readers(threads) > 0,
    decreases threads.len(),
{
    if i < threads.len() - 1 {
        lemma_reader_counted(threads.drop_last(), i);
    }
}

/// A thread that is about to sleep on a nonzero value, or on `WRITE_LOCKED`,
/// is not the one holding the lock: some other thread holds it.
pub proof fn lemma_holder_other_than(state: u32, threads: Seq<RwPc>, tid: int)
    requires
        0 <= tid < threads.len(),
        rw_inv(state, threads),
        state != 0,
        !rw_reading(threads[tid]),
        !rw_writing(threads[tid]),
    ensures
        exists|h: int| 0 <= h < threads.len() && h != tid && #[trigger] rw_holding(threads[h]),
{
    if state == WRITE_LOCKED {
        let w = choose|i: int| 0 <= i < threads.len() && #[trigger] rw_writing(threads[i]);
        assert(w != tid);
        assert(rw_holding(threads[w]));
    } else {
        lemma_count_readers_positive(threads);
        let r = choose|i: int| 0 <= i < threads.len() && #[trigger] rw_reading(threads[i]);
        assert(r != tid);
        assert(rw_holding(threads[r]));
    }
}

/// The pc a sleeper moves to when it is woken: a reader looks at the state
/// again, a writer tries again.
pub open spec fn woken_pc(pc: RwPc) -> RwPc {
    match pc {
        RwPc::ReadAsleep => RwPc::ReadReloading,
        RwPc::WriteAsleep { .. } => RwPc::WriteTrying,
        _ => pc,
    }
}

/// The shared state word and where each thread stands: a model of every
/// interleaving of `RawRwLock`'s operations.
pub struct RwModel {
    pub state: u32,
    pub threads: Vec<RwPc>,
}

impl RwModel {
    pub open spec fn wf(&self) -> bool {
        rw_inv(self.state, self.threads@)
    }

    pub open spec fn pc(&self, tid: int) -> RwPc {
        self.threads@[tid]
    }

    pub open spec fn someone_asleep(&self) -> bool {
        exists|i: int| 0 <= i < self.threads@.len() && #[trigger] rw_asleep(self.threads@[i])
    }

    /// `threads` idle threads and an unlocked lock.
    pub fn new(threads: usize) -> (m: RwModel)
        ensures
            m.wf(),
            m.state == 0,
            m.threads@ == Seq::new(threads as nat, |i: int| RwPc::Idle),
    {
        let mut v: Vec<RwPc> = Vec::new();
        let mut k: usize = 0;
        while k < threads
            invariant
                k <= threads,
                v@ == Seq::new(k as nat, |i: int| RwPc::Idle),
            decreases threads - k,
        {
            v.push(RwPc::Idle);
            k = k + 1;
            assert(v@ =~= Seq::new(k as nat, |i: int| RwPc::Idle));
        }
        proof {
            lemma_count_readers_zero(v@);
            assert forall|i: int| 0 <= i < v@.len() implies !#[trigger] rw_asleep(v@[i]) && !rw_writing(v@[i]) by {}
        }
        RwModel { state: 0, threads: v }
    }

    /// Moves thread `tid` to `pc` and the state word to `state`, keeping the
    /// invariant.
    fn step(&mut self, tid: usize, pc: RwPc, state: u32)
        requires
            old(self).wf(),
            tid < old(self).threads@.len(),
            rw_step_allowed(old(self).state, old(self).threads@, state, tid as int, pc),
        ensures
            final(self).wf(),
            final(self).state == state,
            final(self).threads@ == old(self).threads@.update(tid as int, pc),
    {
        proof { lemma_rw_step(self.state, self.threads@, state, tid as int, pc); }
        self.threads.set(tid, pc);
        self.state = state;
    }

    /// A reader `tid` starts: it loads the state.
    pub fn read_start(&mut self, tid: usize)
        requires
            old(self).wf(),
            tid < old(self).threads@.len(),
            old(self).pc(tid as int) is Idle,
        ensures
            final(self).wf(),
            final(self).state == old(self).state,
            final(self).threads@ == old(self).threads@.update(tid as int, RwPc::ReadTrying { seen: old(self).state }),
    {
        let s = self.state;
        self.step(tid, RwPc::ReadTrying { seen: s }, s);
    }

    /// A reader `tid` that saw `seen` tries to join with
    /// `compare_exchange_weak(seen, seen + 1)`; if that fails on a write
    /// locked state, or `seen` was write locked, it goes to wait.
    pub fn read_try(&mut self, tid: usize)
        requires
            old(self).wf(),
            tid < old(self).threads@.len(),
            old(self).pc(tid as int) is ReadTrying,
            old(self).pc(tid as int)->ReadTrying_seen != MAX_READERS,
        ensures
            final(self).wf(),
            ({
                let seen = old(self).pc(tid as int)->ReadTrying_seen;
                if spec_read_tries(seen) && old(self).state == seen {
                    final(self).state == seen + 1
                        && final(self).threads@ == old(self).threads@.update(tid as int, RwPc::Reading)
                } else if spec_read_tries(seen) && !spec_read_waits(old(self).state) {
                    final(self).state == old(self).state
                        && final(self).threads@ == old(self).threads@.update(tid as int, RwPc::ReadTrying { seen: old(self).state })
                } else {
                    final(self).state == old(self).state
                        && final(self).threads@ == old(self).threads@.update(tid as int, RwPc::ReadWaiting)
                }
            }),
    {
        let pc = self.threads[tid];
        let s = self.state;
        match pc {
            RwPc::ReadTrying { seen } => {
                if read_tries(seen) && s == seen {
                    self.step(tid, RwPc::Reading, seen + 1);
                } else if read_tries(seen) && !read_waits(s) {
                    self.step(tid, RwPc::ReadTrying { seen: s }, s);
                } else {
                    self.step(tid, RwPc::ReadWaiting, s);
                }
            },
            _ => {},
        }
    }

    /// A reader `tid` calls the futex wait with `WRITE_LOCKED`: it sleeps if
    /// the lock is still write locked, and otherwise returns at once.
    pub fn read_wait(&mut self, tid: usize)
        requires
            old(self).wf(),
            tid < old(self).threads@.len(),
            old(self).pc(tid as int) is ReadWaiting,
        ensures
            final(self).wf(),
            final(self).state == old(self).state,
            old(self).state == WRITE_LOCKED ==> final(self).threads@ == old(self).threads@.update(tid as int, RwPc::ReadAsleep),
            old(self).state != WRITE_LOCKED ==> final(self).threads@ == old(self).threads@.update(tid as int, RwPc::ReadReloading),
    {
        let s = self.state;
        if s == WRITE_LOCKED {
            self.step(tid, RwPc::ReadAsleep, s);
        } else {
            self.step(tid, RwPc::ReadReloading, s);
        }
    }

    /// A reader `tid` loads the state again after waiting.
    pub fn read_reload(&mut self, tid: usize)
        requires
            old(self).wf(),
            tid < old(self).threads@.len(),
            old(self).pc(tid as int) is ReadReloading,
        ensures
            final(self).wf(),
            final(self).state == old(self).state,
            final(self).threads@ == old(self).threads@.update(tid as int, RwPc::ReadTrying { seen: old(self).state }),
    {
        let s = self.state;
        self.step(tid, RwPc::ReadTrying { seen: s }, s);
    }

    /// A sleeping thread `tid` returns from the futex wait without a wake.
    pub fn wake_spuriously(&mut self, tid: usize)
        requires
            old(self).wf(),
            tid < old(self).threads@.len(),
            rw_asleep(old(self).pc(tid as int)),
        ensures
            final(self).wf(),
            final(self).state == old(self).state,
            final(self).threads@ == old(self).threads@.update(tid as int, woken_pc(old(self).pc(tid as int))),
    {
        let s = self.state;
        let pc = self.threads[tid];
        match pc {
            RwPc::ReadAsleep => self.step(tid, RwPc::ReadReloading, s),
            _ => self.step(tid, RwPc::WriteTrying, s),
        }
    }

    /// A reader `tid` leaves with `fetch_sub(1)`.
    pub fn read_unlock(&mut self, tid: usize)
        requires
            old(self).wf(),
            tid < old(self).threads@.len(),
            old(self).pc(tid as int) is Reading,
        ensures
            final(self).wf(),
            1 <= old(self).state < WRITE_LOCKED,
            final(self).state == old(self).state - 1,
            spec_read_unlock_wakes(old(self).state) ==> final(self).threads@ == old(self).threads@.update(tid as int, RwPc::ReadWaking),
            !spec_read_unlock_wakes(old(self).state) ==> final(self).threads@ == old(self).threads@.update(tid as int, RwPc::Idle),
    {
        proof {
            assert(rw_reading(self.threads@[tid as int]));
            lemma_reader_counted(self.threads@, tid as int);
            if self.state == WRITE_LOCKED {
                assert(!rw_reading(self.threads@[tid as int]));
            }
        }
        let previous = self.state;
        if read_unlock_wakes(previous) {
            self.step(tid, RwPc::ReadWaking, previous - 1);
        } else {
            self.step(tid, RwPc::Idle, previous - 1);
        }
    }

    /// The last reader `tid` wakes one sleeper; `woken` is the one the futex
    /// picks, present exactly when some thread sleeps.
    pub fn read_wake(&mut self, tid: usize, woken: Option<usize>)
        requires
            old(self).wf(),
            tid < old(self).threads@.len(),
            old(self).pc(tid as int) is ReadWaking,
            woken is Some ==> woken->0 < old(self).threads@.len() && rw_asleep(old(self).pc(woken->0 as int)),
            old(self).someone_asleep() ==> woken is Some,
        ensures
            final(self).wf(),
            final(self).state == old(self).state,
            woken is Some ==> final(self).threads@ == old(self).threads@.update(woken->0 as int,
                woken_pc(old(self).pc(woken->0 as int))).update(tid as int, RwPc::Idle),
            woken is None ==> final(self).threads@ == old(self).threads@.update(tid as int, RwPc::Idle),
    {
        let s = self.state;
        match woken {
            Option::Some(w) => {
                self.wake_spuriously(w);
                proof {
                    assert(rw_active(self.threads@[w as int]));
                }
                self.step(tid, RwPc::Idle, s);
            },
            Option::None => {
                self.step(tid, RwPc::Idle, s);
            },
        }
    }

    /// A writer `tid` starts `write`.
    pub fn write_start(&mut self, tid: usize)
        requires
            old(self).wf(),
            tid < old(self).threads@.len(),
            old(self).pc(tid as int) is Idle,
        ensures
            final(self).wf(),
            final(self).state == old(self).state,
            final(self).threads@ == old(self).threads@.update(tid as int, RwPc::WriteTrying),
    {
        let s = self.state;
        self.step(tid, RwPc::WriteTrying, s);
    }

    /// A writer `tid` tries `compare_exchange(0, WRITE_LOCKED)`.
    pub fn write_try(&mut self, tid: usize)
        requires
            old(self).wf(),
            tid < old(self).threads@.len(),
            old(self).pc(tid as int) is WriteTrying,
        ensures
            final(self).wf(),
            old(self).state == 0 ==> final(self).state == WRITE_LOCKED
                && final(self).threads@ == old(self).threads@.update(tid as int, RwPc::Writing),
            old(self).state != 0 ==> final(self).state == old(self).state
                && final(self).threads@ == old(self).threads@.update(tid as int, RwPc::WriteWaiting { seen: old(self).state }),
    {
        let s = self.state;
        if s == 0 {
            self.step(tid, RwPc::Writing, WRITE_LOCKED);
        } else {
            self.step(tid, RwPc::WriteWaiting { seen: s }, s);
        }
    }

    /// A writer `tid` calls the futex wait with the value it saw: it sleeps
    /// if the state still has that value, and otherwise tries again.
    pub fn write_wait(&mut self, tid: usize)
        requires
            old(self).wf(),
            tid < old(self).threads@.len(),
            old(self).pc(tid as int) is WriteWaiting,
        ensures
            final(self).wf(),
            final(self).state == old(self).state,
            ({
                let seen = old(self).pc(tid as int)->WriteWaiting_seen;
                if old(self).state == seen {
                    final(self).threads@ == old(self).threads@.update(tid as int, RwPc::WriteAsleep { seen })
                } else {
                    final(self).threads@ == old(self).threads@.update(tid as int, RwPc::WriteTrying)
                }
            }),
    {
        let s = self.state;
        let pc = self.threads[tid];
        proof {
            assert(self.threads@[tid as int] is WriteWaiting);
        }
        match pc {
            RwPc::WriteWaiting { seen } => {
                if s == seen {
                    self.step(tid, RwPc::WriteAsleep { seen }, s);
                } else {
                    self.step(tid, RwPc::WriteTrying, s);
                }
            },
            _ => {},
        }
    }

    /// The writer `tid` leaves: it stores 0.
    pub fn write_unlock(&mut self, tid: usize)
        requires
            old(self).wf(),
            tid < old(self).threads@.len(),
            old(self).pc(tid as int) is Writing,
        ensures
            final(self).wf(),
            final(self).state == 0,
            final(self).threads@ == old(self).threads@.update(tid as int, RwPc::WriteWaking),
    {
        self.step(tid, RwPc::WriteWaking, 0);
    }

    /// The writer `tid` that left wakes every sleeper.
    pub fn write_wake(&mut self, tid: usize)
        requires
            old(self).wf(),
            tid < old(self).threads@.len(),
            old(self).pc(tid as int) is WriteWaking,
        ensures
            final(self).wf(),
            final(self).state == old(self).state,
            final(self).threads@ == Seq::new(old(self).threads@.len(), |i: int| woken_pc(old(self).pc(i))).update(tid as int, RwPc::Idle),
            !final(self).someone_asleep(),
    {
        let ghost pre = self.threads@;
        let s = self.state;
        let n = self.threads.len();
        let mut k: usize = 0;
        while k < n
            invariant
                self.wf(),
                self.state == s,
                n == self.threads@.len(),
                n == pre.len(),
                k <= n,
                tid < n,
                pre[tid as int] is WriteWaking,
                forall|i: int| 0 <= i < k ==> #[trigger] self.threads@[i] == woken_pc(pre[i]),
                forall|i: int| k <= i < n ==> #[trigger] self.threads@[i] == pre[i],
            decreases n - k,
        {
            let pc = self.threads[k];
            match pc {
                RwPc::ReadAsleep => self.step(k, RwPc::ReadReloading, s),
                RwPc::WriteAsleep { .. } => self.step(k, RwPc::WriteTrying, s),
                _ => {},
            }
            k = k + 1;
        }
        proof {
            assert forall|i: int| 0 <= i < self.threads@.len() implies !#[trigger] rw_asleep(self.threads@[i]) by {
                assert(self.threads@[i] == woken_pc(pre[i]));
            }
        }
        self.step(tid, RwPc::Idle, s);
        proof {
            assert(self.threads@ =~= Seq::new(pre.len(), |i: int| woken_pc(pre[i])).update(tid as int, RwPc::Idle));
            assert forall|i: int| 0 <= i < self.threads@.len() implies !#[trigger] rw_asleep(self.threads@[i]) by {
                if i != tid {
                    assert(self.threads@[i] == woken_pc(pre[i]));
                }
            }
        }
    }
}

/// A writer excludes everyone: while a thread writes, no other thread writes
/// and no thread reads.
pub proof fn lemma_rw_writer_exclusive(m: &RwModel, w: int, i: int)
    requires
        m.wf(),
        0 <= w < m.threads@.len(),
        0 <= i < m.threads@.len(),
        m.pc(w) is Writing,
        i != w,
    ensures
        !(m.pc(i) is Writing),
        !(m.pc(i) is Reading),
        m.state == WRITE_LOCKED,
{
    assert(rw_writing(m.threads@[w]));
    if rw_writing(m.threads@[i]) {
        assert(rw_writing(m.threads@[w]) && rw_writing(m.threads@[i]));
    }
    assert(!rw_reading(m.threads@[i]));
}

/// Without a writer the state word counts the readers exactly.
pub proof fn lemma_rw_state_counts_readers(m: &RwModel)
    requires
        m.wf(),
        m.state != WRITE_LOCKED,
    ensures
        count_readers(m.threads@) == m.state,
        forall|i: int| 0 <= i < m.threads@.len() ==> !(#[trigger] m.threads@[i] is Writing),
{
    assert forall|i: int| 0 <= i < m.threads@.len() implies !(#[trigger] m.threads@[i] is Writing) by {
        if m.threads@[i] is Writing {
            assert(rw_writing(m.threads@[i]));
        }
    }
}

/// No lost wake-up: while a thread sleeps on the lock, some thread is neither
/// idle nor asleep, so a holder that will wake it on leaving, or a thread
/// that will, is still running.
pub proof fn lemma_rw_no_lost_wakeup(m: &RwModel, sleeper: int)
    requires
        m.wf(),
        0 <= sleeper < m.threads@.len(),
        rw_asleep(m.pc(sleeper)),
    ensures
        exists|i: int| 0 <= i < m.threads@.len() && #[trigger] rw_active(m.threads@[i]),
{
}

/// A writer never gets the lock while a reader holds it: in every reachable
/// state with a reader, the state word counts it (between 1 and
/// `MAX_READERS`), so the writer's `compare_exchange(0, WRITE_LOCKED)` fails
/// and leaves the reader count as it was.
pub proof fn lemma_rw_writer_waits_for_readers(m: &RwModel, reader: int)
    requires
        m.wf(),
        0 <= reader < m.threads@.len(),
        m.pc(reader) is Reading,
    ensures
        1 <= m.state <= MAX_READERS,
        m.state != 0,
        count_readers(m.threads@) == m.state,
{
    assert(rw_reading(m.threads@[reader]));
    lemma_reader_counted(m.threads@, reader);
}

/// Nor does a writer get the lock while another writer holds it.
pub proof fn lemma_rw_writer_waits_for_writer(m: &RwModel, writer: int)
    requires
        m.wf(),
        0 <= writer < m.threads@.len(),
        m.pc(writer) is Writing,
    ensures
        m.state == WRITE_LOCKED,
        m.state != 0,
{
    assert(rw_writing(m.threads@[writer]));
}

} // verus!

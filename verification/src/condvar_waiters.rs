use crate::mutex::RawMutex;
use crate::platform::{futex_wait, futex_wake_all, futex_wake_one};
use std::sync::atomic::AtomicU32;
use std::sync::atomic::AtomicUsize;
use std::sync::atomic::Ordering;
use vstd::prelude::*;

verus! {

/// A notification does any work only when some thread waits.
pub open spec fn spec_notify_needed(waiters: usize) -> bool {
    waiters > 0
}

/// Decides, from the number of waiters seen, whether a notification bumps
/// the counter and wakes.
pub fn notify_needed(waiters: usize) -> (needed: bool)
    ensures
        needed == spec_notify_needed(waiters),
{
    waiters > 0
}

/// A condition variable that counts its waiters, so that a notification
/// with nobody waiting costs no system call.
pub struct MyCondvar {
    counter: AtomicU32,
    num_waiters: AtomicUsize,
}

impl MyCondvar {
    /// A condition variable nobody waits on.
    pub fn new() -> (condvar: MyCondvar) {
        MyCondvar { counter: AtomicU32::new(0), num_waiters: AtomicUsize::new(0) }
    }

    /// If some thread waits, bumps the counter and wakes one waiter.
    pub fn notify_one(&self) {
        if notify_needed(self.num_waiters.load(Ordering::Relaxed)) {
            self.counter.fetch_add(1, Ordering::Relaxed);
            futex_wake_one(&self.counter);
        }
    }

    /// If some thread waits, bumps the counter and wakes every waiter.
    pub fn notify_all(&self) {
        if notify_needed(self.num_waiters.load(Ordering::Relaxed)) {
            self.counter.fetch_add(1, Ordering::Relaxed);
            futex_wake_all(&self.counter);
        }
    }

    /// The middle of `wait`, for a caller that holds `mutex`: counts itself
    /// as a waiter, reads the counter, releases the mutex, sleeps while the
    /// counter keeps the value read, and stops counting itself. The caller
    /// takes the mutex again afterwards.
    pub fn release_and_wait(&self, mutex: &RawMutex) {
        self.num_waiters.fetch_add(1, Ordering::Relaxed);
        let counter_value = self.counter.load(Ordering::Relaxed);
        mutex.unlock();
        futex_wait(&self.counter, counter_value);
        self.num_waiters.fetch_sub(1, Ordering::Relaxed);
    }
}

/// Where a thread stands in the condition variable protocol, with the
/// mutex it is used with. Each step between two of these is one atomic
/// operation, one futex call, or one lock or unlock of the mutex.
#[derive(Clone, Copy, PartialEq, Eq, Debug)]
pub enum CvPc {
    /// Neither waiting nor notifying; it may hold the mutex.
    Idle,
    /// A waiter holding the mutex that has counted itself, about to read the
    /// counter.
    Registered,
    /// A waiter holding the mutex that read `value` from the counter when
    /// `at` notifications had been made, about to release the mutex.
    Snapshot { value: u32, at: u64 },
    /// A waiter that released the mutex, about to sleep on `value`.
    Released { value: u32, at: u64 },
    /// A waiter sleeping on `value`.
    Asleep { value: u32, at: u64 },
    /// A waiter back from the futex, about to stop counting itself.
    Woken,
    /// A waiter that stopped counting itself, about to lock the mutex again.
    Relocking,
    /// A notifier that saw waiters, about to bump the counter.
    Bumping,
    /// A notifier that bumped the counter, about to wake.
    NotifyWaking,
}

/// A waiter between counting itself and uncounting itself.
pub open spec fn cv_counted(pc: CvPc) -> bool {
    pc is Registered || pc is Snapshot || pc is Released || pc is Asleep || pc is Woken
}

pub open spec fn cv_asleep(pc: CvPc) -> bool {
    pc is Asleep
}

/// A waiter inside `wait` that must not hold the mutex: from its release to
/// its relock.
pub open spec fn cv_released(pc: CvPc) -> bool {
    pc is Released || pc is Asleep || pc is Woken || pc is Relocking
}

/// A waiter inside `wait` that still holds the mutex.
pub open spec fn cv_holds_in_wait(pc: CvPc) -> bool {
    pc is Registered || pc is Snapshot
}

/// How many threads are counted as waiters.
pub open spec fn count_waiters(threads: Seq<CvPc>) -> nat
    decreases threads.len(),
{
    if threads.len() == 0 {
        0
    } else {
        count_waiters(threads.drop_last()) + if cv_counted(threads.last()) { 1nat } else { 0nat }
    }
}

pub open spec fn waiter_weight(pc: CvPc) -> int {
    if cv_counted(pc) { 1 } else { 0 }
}

/// Changing one thread's pc changes the waiter count by the difference of
/// the two weights.
pub proof fn lemma_count_waiters_update(threads: Seq<CvPc>, i: int, pc: CvPc)
    requires
        0 <= i < threads.len(),
    ensures
        count_waiters(threads.update(i, pc)) == count_waiters(threads) - waiter_weight(threads[i]) + waiter_weight(pc),
    decreases threads.len(),
{
    let u = threads.update(i, pc);
    if i == threads.len() - 1 {
        assert(u.drop_last() =~= threads.drop_last());
    } else {
        lemma_count_waiters_update(threads.drop_last(), i, pc);
        assert(u.drop_last() =~= threads.drop_last().update(i, pc));
    }
}

/// The waiter count is at most the number of threads, positive when some
/// thread is counted, and below the number of threads when some thread is
/// not.
pub proof fn lemma_count_waiters_bounds(threads: Seq<CvPc>, i: int)
    ensures
        count_waiters(threads) <= threads.len(),
        0 <= i < threads.len() && cv_counted(threads[i]) ==> count_waiters(threads) > 0,
        0 <= i < threads.len() && !cv_counted(threads[i]) ==> count_waiters(threads) < threads.len(),
    decreases threads.len(),
{
    if threads.len() > 0 {
        lemma_count_waiters_bounds(threads.drop_last(), i);
    }
}

/// With no thread counted the count is zero.
pub proof fn lemma_count_waiters_zero(threads: Seq<CvPc>)
    requires
        forall|i: int| 0 <= i < threads.len() ==> !#[trigger] cv_counted(threads[i]),
    ensures
        count_waiters(threads) == 0,
    decreases threads.len(),
{
    if threads.len() > 0 {
        assert(!cv_counted(threads[threads.len() - 1]));
        assert forall|i: int| 0 <= i < threads.drop_last().len() implies !#[trigger] cv_counted(threads.drop_last()[i]) by {
            assert(!cv_counted(threads[i]));
        }
        lemma_count_waiters_zero(threads.drop_last());
    }
}

/// The number of values of the counter.
pub open spec fn counter_range() -> int {
    0x1_0000_0000
}

/// The counter after one bump, wrapping as `fetch_add` does.
pub open spec fn bumped(counter: u32) -> u32 {
    if counter == u32::MAX { 0 } else { (counter + 1) as u32 }
}

/// Bumping the counter keeps it equal to the number of notifications made,
/// taken modulo its range.
pub proof fn lemma_bump_tracks_count(b: int)
    requires
        b >= 0,
    ensures
        (b + 1) % counter_range() == if b % counter_range() == u32::MAX { 0 } else { b % counter_range() + 1 },
{
    let m: int = counter_range();
    let q = b / m;
    let r = b % m;
    assert(b == q * m + r && 0 <= r < m) by (nonlinear_arith)
        requires
            m > 0,
            q == b / m,
            r == b % m,
    ;
    if r == m - 1 {
        assert(b + 1 == (q + 1) * m + 0) by (nonlinear_arith)
            requires
                b == q * m + r,
                r == m - 1,
        ;
        vstd::arithmetic::div_mod::lemma_mod_multiples_basic(q + 1, m);
    } else {
        vstd::arithmetic::div_mod::lemma_fundamental_div_mod_converse(b + 1, m, q, r + 1);
    }
}

/// Fewer than `counter_range()` notifications, but at least one, always
/// leave the counter at another value.
pub proof fn lemma_counter_moved(a: int, b: int)
    requires
        0 <= a < b,
        b - a < counter_range(),
    ensures
        a % counter_range() != b % counter_range(),
{
    let m: int = counter_range();
    vstd::arithmetic::div_mod::lemma_fundamental_div_mod(a, m);
    vstd::arithmetic::div_mod::lemma_fundamental_div_mod(b, m);
    if a % m == b % m {
        assert((b / m - a / m) * m == b - a) by (nonlinear_arith)
            requires
                a == m * (a / m) + a % m,
                b == m * (b / m) + b % m,
                a % m == b % m,
        ;
        assert(false) by (nonlinear_arith)
            requires
                (b / m - a / m) * m == b - a,
                0 < b - a < m,
                m > 0,
        ;
    }
}

/// The pc a sleeper moves to when a notifier wakes it.
pub open spec fn cv_woken_pc(pc: CvPc) -> CvPc {
    if pc is Asleep { CvPc::Woken } else { pc }
}

/// What a waiter's snapshot says: the value it read and how many
/// notifications had been made then.
pub open spec fn snapshot_of(pc: CvPc) -> Option<(u32, u64)> {
    match pc {
        CvPc::Snapshot { value, at } => Option::Some((value, at)),
        CvPc::Released { value, at } => Option::Some((value, at)),
        CvPc::Asleep { value, at } => Option::Some((value, at)),
        _ => Option::None,
    }
}

/// The invariant of one thread's pc against the shared state.
pub open spec fn cv_thread_ok(pc: CvPc, i: int, bumps: u64, mutex_holder: Option<usize>) -> bool {
    &&& (snapshot_of(pc) matches Option::Some((value, at)) ==> at <= bumps && value == (at as int) % counter_range())
    &&& (cv_holds_in_wait(pc) ==> mutex_holder == Option::Some(i as usize))
    &&& (cv_released(pc) ==> mutex_holder != Option::Some(i as usize))
}

/// The counter, the waiter count, how many notifications have been made,
/// which thread holds the mutex, and where each thread stands: a model of
/// every interleaving of the operations of a condition variable and of the
/// mutex that `wait` releases and takes again. With `counts_waiters` it is
/// this module's `MyCondvar`, whose waiters count themselves and whose
/// notifications do nothing while none is counted; without it it is
/// `crate::condvar::MyCondvar`, whose waiters go straight to reading the
/// counter and whose notifications always bump it and wake.
pub struct CondvarModel {
    pub counts_waiters: bool,
    pub counter: u32,
    pub num_waiters: usize,
    pub bumps: u64,
    pub mutex_holder: Option<usize>,
    pub threads: Vec<CvPc>,
}

impl CondvarModel {
    /// The invariant: `num_waiters` is the number of threads between counting
    /// and uncounting themselves; the counter is the number of
    /// notifications modulo its range; each waiter's snapshot was read from
    /// it; a waiter holds the mutex until it releases it inside `wait` and
    /// not again until it relocks.
    pub open spec fn wf(&self) -> bool {
        &&& self.counts_waiters ==> self.num_waiters == count_waiters(self.threads@)
        &&& !self.counts_waiters ==> self.num_waiters == 0
        &&& self.counter == (self.bumps as int) % counter_range()
        &&& self.threads@.len() <= usize::MAX
        &&& (self.mutex_holder matches Option::Some(h) ==> h < self.threads@.len())
        &&& forall|i: int| 0 <= i < self.threads@.len()
            ==> cv_thread_ok(#[trigger] self.threads@[i], i, self.bumps, self.mutex_holder)
    }

    /// The shared values other than the threads are those of `other`.
    pub open spec fn same_shared(&self, other: CondvarModel) -> bool {
        &&& self.counts_waiters == other.counts_waiters
        &&& self.counter == other.counter
        &&& self.num_waiters == other.num_waiters
        &&& self.bumps == other.bumps
        &&& self.mutex_holder == other.mutex_holder
    }

    pub open spec fn pc(&self, tid: int) -> CvPc {
        self.threads@[tid]
    }

    pub open spec fn someone_asleep(&self) -> bool {
        exists|i: int| 0 <= i < self.threads@.len() && #[trigger] cv_asleep(self.threads@[i])
    }

    /// `threads` idle threads, a free mutex, a zero counter and no waiters,
    /// for the condition variable that counts its waiters.
    pub fn new(threads: usize) -> (m: CondvarModel)
        ensures
            m.wf(),
            m.counts_waiters,
            m.counter == 0,
            m.num_waiters == 0,
            m.bumps == 0,
            m.mutex_holder is None,
            m.threads@ == Seq::new(threads as nat, |i: int| CvPc::Idle),
    {
        let mut v: Vec<CvPc> = Vec::new();
        let mut k: usize = 0;
        while k < threads
            invariant
                k <= threads,
                v@ == Seq::new(k as nat, |i: int| CvPc::Idle),
            decreases threads - k,
        {
            v.push(CvPc::Idle);
            k = k + 1;
            assert(v@ =~= Seq::new(k as nat, |i: int| CvPc::Idle));
        }
        proof { lemma_count_waiters_zero(v@); }
        CondvarModel { counts_waiters: true, counter: 0, num_waiters: 0, bumps: 0, mutex_holder: Option::None, threads: v }
    }

    /// `threads` idle threads, a free mutex and a zero counter, for the
    /// condition variable that does not count its waiters.
    pub fn new_plain(threads: usize) -> (m: CondvarModel)
        ensures
            m.wf(),
            !m.counts_waiters,
            m.counter == 0,
            m.num_waiters == 0,
            m.bumps == 0,
            m.mutex_holder is None,
            m.threads@ == Seq::new(threads as nat, |i: int| CvPc::Idle),
    {
        let m = CondvarModel::new(threads);
        CondvarModel { counts_waiters: false, ..m }
    }

    /// Moves thread `tid` to `pc` and the mutex to `holder`, keeping the
    /// waiter count in step.
    fn step(&mut self, tid: usize, pc: CvPc, holder: Option<usize>)
        requires
            old(self).wf(),
            tid < old(self).threads@.len(),
            old(self).counts_waiters ==> cv_counted(pc) == cv_counted(old(self).pc(tid as int)),
            cv_thread_ok(pc, tid as int, old(self).bumps, holder),
            holder matches Option::Some(h) ==> h < old(self).threads@.len(),
            holder != old(self).mutex_holder ==> holder is None || holder == Option::Some(tid),
            holder != old(self).mutex_holder ==> forall|i: int|
                0 <= i < old(self).threads@.len() && i != tid ==> !cv_holds_in_wait(#[trigger] old(self).threads@[i]),
        ensures
            final(self).wf(),
            final(self).counts_waiters == old(self).counts_waiters,
            final(self).counter == old(self).counter,
            final(self).num_waiters == old(self).num_waiters,
            final(self).bumps == old(self).bumps,
            final(self).mutex_holder == holder,
            final(self).threads@ == old(self).threads@.update(tid as int, pc),
    {
        proof { lemma_count_waiters_update(self.threads@, tid as int, pc); }
        self.threads.set(tid, pc);
        self.mutex_holder = holder;
        proof {
            assert forall|i: int| 0 <= i < self.threads@.len()
                implies cv_thread_ok(#[trigger] self.threads@[i], i, self.bumps, self.mutex_holder) by {
                if i != tid as int {
                    assert(cv_thread_ok(old(self).threads@[i], i, self.bumps, old(self).mutex_holder));
                }
            }
        }
    }

    /// Thread `tid` locks the free mutex.
    pub fn lock(&mut self, tid: usize)
        requires
            old(self).wf(),
            tid < old(self).threads@.len(),
            old(self).pc(tid as int) is Idle,
            old(self).mutex_holder is None,
        ensures
            final(self).wf(),
            final(self).same_shared(CondvarModel { mutex_holder: Option::Some(tid), ..*old(self) }),
            final(self).threads@ == old(self).threads@,
    {
        proof { self.lemma_free_mutex_unclaimed(); }
        self.step(tid, CvPc::Idle, Option::Some(tid));
    }

    /// Thread `tid`, outside `wait`, unlocks the mutex it holds.
    pub fn unlock(&mut self, tid: usize)
        requires
            old(self).wf(),
            tid < old(self).threads@.len(),
            old(self).pc(tid as int) is Idle,
            old(self).mutex_holder == Option::Some(tid),
        ensures
            final(self).wf(),
            final(self).same_shared(CondvarModel { mutex_holder: Option::None, ..*old(self) }),
            final(self).threads@ == old(self).threads@,
    {
        proof { self.lemma_holder_excludes(tid as int); }
        self.step(tid, CvPc::Idle, Option::None);
    }

    /// A waiter `tid` that holds the mutex counts itself: `fetch_add(1)` on
    /// `num_waiters`.
    pub fn wait_register(&mut self, tid: usize)
        requires
            old(self).wf(),
            old(self).counts_waiters,
            tid < old(self).threads@.len(),
            old(self).pc(tid as int) is Idle,
            old(self).mutex_holder == Option::Some(tid),
        ensures
            final(self).wf(),
            final(self).counts_waiters,
            final(self).counter == old(self).counter,
            final(self).bumps == old(self).bumps,
            final(self).mutex_holder == old(self).mutex_holder,
            final(self).num_waiters == old(self).num_waiters + 1,
            final(self).threads@ == old(self).threads@.update(tid as int, CvPc::Registered),
    {
        let n = self.threads.len();
        proof {
            lemma_count_waiters_bounds(self.threads@, tid as int);
            lemma_count_waiters_update(self.threads@, tid as int, CvPc::Registered);
            assert(self.num_waiters < n);
        }
        self.num_waiters = self.num_waiters + 1;
        self.threads.set(tid, CvPc::Registered);
        proof {
            assert forall|i: int| 0 <= i < self.threads@.len()
                implies cv_thread_ok(#[trigger] self.threads@[i], i, self.bumps, self.mutex_holder) by {
                if i != tid as int {
                    assert(cv_thread_ok(old(self).threads@[i], i, self.bumps, old(self).mutex_holder));
                }
            }
        }
    }

    /// A waiter `tid` reads the counter.
    pub fn wait_snapshot(&mut self, tid: usize)
        requires
            old(self).wf(),
            tid < old(self).threads@.len(),
            old(self).pc(tid as int) is Registered,
        ensures
            final(self).wf(),
            final(self).same_shared(*old(self)),
            final(self).threads@ == old(self).threads@.update(tid as int,
                CvPc::Snapshot { value: old(self).counter, at: old(self).bumps }),
    {
        let c = self.counter;
        let b = self.bumps;
        let h = self.mutex_holder;
        proof { assert(cv_thread_ok(self.threads@[tid as int], tid as int, self.bumps, self.mutex_holder)); }
        self.step(tid, CvPc::Snapshot { value: c, at: b }, h);
    }

    /// A waiter `tid` releases the mutex, as `wait` does before it sleeps.
    pub fn wait_release(&mut self, tid: usize)
        requires
            old(self).wf(),
            tid < old(self).threads@.len(),
            old(self).pc(tid as int) is Snapshot,
        ensures
            final(self).wf(),
            old(self).mutex_holder == Option::Some(tid),
            final(self).mutex_holder is None,
            final(self).counter == old(self).counter,
            final(self).bumps == old(self).bumps,
            final(self).num_waiters == old(self).num_waiters,
            final(self).threads@ == old(self).threads@.update(tid as int, CvPc::Released {
                value: old(self).pc(tid as int)->Snapshot_value,
                at: old(self).pc(tid as int)->Snapshot_at,
            }),
    {
        proof {
            assert(cv_thread_ok(self.threads@[tid as int], tid as int, self.bumps, self.mutex_holder));
            self.lemma_waiter_holder_alone(tid as int);
        }
        let pc = self.threads[tid];
        match pc {
            CvPc::Snapshot { value, at } => {
                self.step(tid, CvPc::Released { value, at }, Option::None);
            },
            _ => {},
        }
    }

    /// A waiter `tid` calls the futex wait with the value it read: it sleeps
    /// if the counter still has it, and otherwise returns at once.
    pub fn wait_sleep(&mut self, tid: usize)
        requires
            old(self).wf(),
            tid < old(self).threads@.len(),
            old(self).pc(tid as int) is Released,
        ensures
            final(self).wf(),
            final(self).same_shared(*old(self)),
            ({
                let value = old(self).pc(tid as int)->Released_value;
                let at = old(self).pc(tid as int)->Released_at;
                if old(self).counter == value {
                    final(self).threads@ == old(self).threads@.update(tid as int, CvPc::Asleep { value, at })
                } else {
                    final(self).threads@ == old(self).threads@.update(tid as int, CvPc::Woken)
                }
            }),
    {
        let h = self.mutex_holder;
        proof { assert(cv_thread_ok(self.threads@[tid as int], tid as int, self.bumps, self.mutex_holder)); }
        let pc = self.threads[tid];
        match pc {
            CvPc::Released { value, at } => {
                if self.counter == value {
                    self.step(tid, CvPc::Asleep { value, at }, h);
                } else {
                    self.step(tid, CvPc::Woken, h);
                }
            },
            _ => {},
        }
    }

    /// A sleeping waiter `tid` comes back from the futex, woken or not.
    pub fn wake_spuriously(&mut self, tid: usize)
        requires
            old(self).wf(),
            tid < old(self).threads@.len(),
            old(self).pc(tid as int) is Asleep,
        ensures
            final(self).wf(),
            final(self).same_shared(*old(self)),
            final(self).threads@ == old(self).threads@.update(tid as int, CvPc::Woken),
    {
        let h = self.mutex_holder;
        proof { assert(cv_thread_ok(self.threads@[tid as int], tid as int, self.bumps, self.mutex_holder)); }
        self.step(tid, CvPc::Woken, h);
    }

    /// A waiter `tid` stops counting itself: `fetch_sub(1)` on
    /// `num_waiters`.
    pub fn wait_finish(&mut self, tid: usize)
        requires
            old(self).wf(),
            old(self).counts_waiters,
            tid < old(self).threads@.len(),
            old(self).pc(tid as int) is Woken,
        ensures
            final(self).wf(),
            final(self).counts_waiters,
            final(self).counter == old(self).counter,
            final(self).bumps == old(self).bumps,
            final(self).mutex_holder == old(self).mutex_holder,
            final(self).num_waiters == old(self).num_waiters - 1,
            final(self).threads@ == old(self).threads@.update(tid as int, CvPc::Relocking),
    {
        proof {
            lemma_count_waiters_bounds(self.threads@, tid as int);
            lemma_count_waiters_update(self.threads@, tid as int, CvPc::Relocking);
            assert(cv_thread_ok(self.threads@[tid as int], tid as int, self.bumps, self.mutex_holder));
        }
        self.num_waiters = self.num_waiters - 1;
        self.threads.set(tid, CvPc::Relocking);
        proof {
            assert forall|i: int| 0 <= i < self.threads@.len()
                implies cv_thread_ok(#[trigger] self.threads@[i], i, self.bumps, self.mutex_holder) by {
                if i != tid as int {
                    assert(cv_thread_ok(old(self).threads@[i], i, self.bumps, old(self).mutex_holder));
                }
            }
        }
    }

    /// A waiter `tid` takes the free mutex again, which ends `wait`.
    pub fn wait_relock(&mut self, tid: usize)
        requires
            old(self).wf(),
            tid < old(self).threads@.len(),
            old(self).pc(tid as int) is Relocking,
            old(self).mutex_holder is None,
        ensures
            final(self).wf(),
            final(self).same_shared(CondvarModel { mutex_holder: Option::Some(tid), ..*old(self) }),
            final(self).threads@ == old(self).threads@.update(tid as int, CvPc::Idle),
    {
        proof { self.lemma_free_mutex_unclaimed(); }
        self.step(tid, CvPc::Idle, Option::Some(tid));
    }

    /// A waiter `tid` of the condition variable that does not count its
    /// waiters, holding the mutex, reads the counter.
    pub fn plain_wait_snapshot(&mut self, tid: usize)
        requires
            old(self).wf(),
            !old(self).counts_waiters,
            tid < old(self).threads@.len(),
            old(self).pc(tid as int) is Idle,
            old(self).mutex_holder == Option::Some(tid),
        ensures
            final(self).wf(),
            final(self).same_shared(*old(self)),
            final(self).threads@ == old(self).threads@.update(tid as int,
                CvPc::Snapshot { value: old(self).counter, at: old(self).bumps }),
    {
        let c = self.counter;
        let b = self.bumps;
        let h = self.mutex_holder;
        self.step(tid, CvPc::Snapshot { value: c, at: b }, h);
    }

    /// A waiter `tid` of the condition variable that does not count its
    /// waiters, back from the futex, goes on to lock the mutex again.
    pub fn plain_wait_finish(&mut self, tid: usize)
        requires
            old(self).wf(),
            !old(self).counts_waiters,
            tid < old(self).threads@.len(),
            old(self).pc(tid as int) is Woken,
        ensures
            final(self).wf(),
            final(self).same_shared(*old(self)),
            final(self).threads@ == old(self).threads@.update(tid as int, CvPc::Relocking),
    {
        let h = self.mutex_holder;
        proof { assert(cv_thread_ok(self.threads@[tid as int], tid as int, self.bumps, self.mutex_holder)); }
        self.step(tid, CvPc::Relocking, h);
    }

    /// A notifier `tid` of the condition variable that does not count its
    /// waiters: it always goes on to bump the counter.
    pub fn plain_notify_start(&mut self, tid: usize)
        requires
            old(self).wf(),
            !old(self).counts_waiters,
            tid < old(self).threads@.len(),
            old(self).pc(tid as int) is Idle,
        ensures
            final(self).wf(),
            final(self).same_shared(*old(self)),
            final(self).threads@ == old(self).threads@.update(tid as int, CvPc::Bumping),
    {
        let h = self.mutex_holder;
        proof { assert(cv_thread_ok(self.threads@[tid as int], tid as int, self.bumps, self.mutex_holder)); }
        self.step(tid, CvPc::Bumping, h);
    }

    /// A notifier `tid` loads `num_waiters`: it goes on only if some thread
    /// waits.
    pub fn notify_check(&mut self, tid: usize)
        requires
            old(self).wf(),
            old(self).counts_waiters,
            tid < old(self).threads@.len(),
            old(self).pc(tid as int) is Idle,
        ensures
            final(self).wf(),
            final(self).same_shared(*old(self)),
            spec_notify_needed(old(self).num_waiters) ==> final(self).threads@ == old(self).threads@.update(tid as int, CvPc::Bumping),
            !spec_notify_needed(old(self).num_waiters) ==> final(self).threads@ == old(self).threads@,
    {
        let h = self.mutex_holder;
        if notify_needed(self.num_waiters) {
            proof { assert(cv_thread_ok(self.threads@[tid as int], tid as int, self.bumps, self.mutex_holder)); }
            self.step(tid, CvPc::Bumping, h);
        }
    }

    /// A notifier `tid` bumps the counter. The model counts notifications in
    /// a `u64`, so it takes fewer than `u64::MAX` of them.
    pub fn notify_bump(&mut self, tid: usize)
        requires
            old(self).wf(),
            tid < old(self).threads@.len(),
            old(self).pc(tid as int) is Bumping,
            old(self).bumps < u64::MAX,
        ensures
            final(self).wf(),
            final(self).counts_waiters == old(self).counts_waiters,
            final(self).counter == bumped(old(self).counter),
            final(self).bumps == old(self).bumps + 1,
            final(self).num_waiters == old(self).num_waiters,
            final(self).mutex_holder == old(self).mutex_holder,
            final(self).threads@ == old(self).threads@.update(tid as int, CvPc::NotifyWaking),
    {
        proof {
            lemma_bump_tracks_count(self.bumps as int);
            assert(cv_thread_ok(self.threads@[tid as int], tid as int, self.bumps, self.mutex_holder));
        }
        self.counter = if self.counter == u32::MAX { 0 } else { self.counter + 1 };
        self.bumps = self.bumps + 1;
        proof {
            assert forall|i: int| 0 <= i < self.threads@.len()
                implies cv_thread_ok(#[trigger] self.threads@[i], i, self.bumps, self.mutex_holder) by {
                assert(cv_thread_ok(old(self).threads@[i], i, old(self).bumps, self.mutex_holder));
            }
        }
        let h = self.mutex_holder;
        self.step(tid, CvPc::NotifyWaking, h);
    }

    /// A notifier `tid` wakes one sleeper, `woken`, present exactly when
    /// some thread sleeps.
    pub fn notify_wake_one(&mut self, tid: usize, woken: Option<usize>)
        requires
            old(self).wf(),
            tid < old(self).threads@.len(),
            old(self).pc(tid as int) is NotifyWaking,
            woken is Some ==> woken->0 < old(self).threads@.len() && old(self).pc(woken->0 as int) is Asleep,
            old(self).someone_asleep() ==> woken is Some,
        ensures
            final(self).wf(),
            final(self).same_shared(*old(self)),
            woken is Some ==> final(self).threads@ == old(self).threads@.update(woken->0 as int, CvPc::Woken).update(tid as int, CvPc::Idle),
            woken is None ==> final(self).threads@ == old(self).threads@.update(tid as int, CvPc::Idle),
    {
        let h = self.mutex_holder;
        match woken {
            Option::Some(w) => {
                proof { assert(cv_thread_ok(self.threads@[w as int], w as int, self.bumps, self.mutex_holder)); }
                self.step(w, CvPc::Woken, h);
            },
            Option::None => {},
        }
        proof { assert(cv_thread_ok(self.threads@[tid as int], tid as int, self.bumps, self.mutex_holder)); }
        self.step(tid, CvPc::Idle, h);
    }

    /// A notifier `tid` wakes every sleeper.
    pub fn notify_wake_all(&mut self, tid: usize)
        requires
            old(self).wf(),
            tid < old(self).threads@.len(),
            old(self).pc(tid as int) is NotifyWaking,
        ensures
            final(self).wf(),
            final(self).same_shared(*old(self)),
            final(self).threads@ == Seq::new(old(self).threads@.len(), |i: int| cv_woken_pc(old(self).pc(i))).update(tid as int, CvPc::Idle),
            !final(self).someone_asleep(),
    {
        let ghost pre = self.threads@;
        let h = self.mutex_holder;
        let n = self.threads.len();
        let mut k: usize = 0;
        while k < n
            invariant
                self.wf(),
                self.counts_waiters == old(self).counts_waiters,
                self.counter == old(self).counter,
                self.num_waiters == old(self).num_waiters,
                self.bumps == old(self).bumps,
                self.mutex_holder == h,
                h == old(self).mutex_holder,
                n == self.threads@.len(),
                n == pre.len(),
                pre == old(self).threads@,
                k <= n,
                tid < n,
                pre[tid as int] is NotifyWaking,
                forall|i: int| 0 <= i < k ==> #[trigger] self.threads@[i] == cv_woken_pc(pre[i]),
                forall|i: int| k <= i < n ==> #[trigger] self.threads@[i] == pre[i],
            decreases n - k,
        {
            let pc = self.threads[k];
            match pc {
                CvPc::Asleep { .. } => {
                    proof { assert(cv_thread_ok(self.threads@[k as int], k as int, self.bumps, self.mutex_holder)); }
                    self.step(k, CvPc::Woken, h);
                },
                _ => {},
            }
            k = k + 1;
        }
        proof { assert(cv_thread_ok(self.threads@[tid as int], tid as int, self.bumps, self.mutex_holder)); }
        self.step(tid, CvPc::Idle, h);
        proof {
            assert(self.threads@ =~= Seq::new(pre.len(), |i: int| cv_woken_pc(pre[i])).update(tid as int, CvPc::Idle));
            assert forall|i: int| 0 <= i < self.threads@.len() implies !#[trigger] cv_asleep(self.threads@[i]) by {
                if i != tid {
                    assert(self.threads@[i] == cv_woken_pc(pre[i]));
                }
            }
        }
    }

    /// With the mutex free, no waiter is inside `wait` holding it.
    proof fn lemma_free_mutex_unclaimed(&self)
        requires
            self.wf(),
            self.mutex_holder is None,
        ensures
            forall|i: int| 0 <= i < self.threads@.len() ==> !cv_holds_in_wait(#[trigger] self.threads@[i]),
    {
        assert forall|i: int| 0 <= i < self.threads@.len() implies !cv_holds_in_wait(#[trigger] self.threads@[i]) by {
            assert(cv_thread_ok(self.threads@[i], i, self.bumps, self.mutex_holder));
        }
    }

    /// When thread `tid` holds the mutex, no other thread is inside `wait`
    /// holding it.
    proof fn lemma_holder_excludes(&self, tid: int)
        requires
            self.wf(),
            0 <= tid < self.threads@.len(),
            self.mutex_holder == Option::Some(tid as usize),
        ensures
            forall|i: int| 0 <= i < self.threads@.len() && i != tid ==> !cv_holds_in_wait(#[trigger] self.threads@[i]),
    {
        assert forall|i: int| 0 <= i < self.threads@.len() && i != tid implies !cv_holds_in_wait(#[trigger] self.threads@[i]) by {
            assert(cv_thread_ok(self.threads@[i], i, self.bumps, self.mutex_holder));
        }
    }

    /// A waiter inside `wait` that still holds the mutex is its only holder.
    proof fn lemma_waiter_holder_alone(&self, tid: int)
        requires
            self.wf(),
            0 <= tid < self.threads@.len(),
            cv_holds_in_wait(self.threads@[tid]),
        ensures
            self.mutex_holder == Option::Some(tid as usize),
            forall|i: int| 0 <= i < self.threads@.len() && i != tid ==> !cv_holds_in_wait(#[trigger] self.threads@[i]),
    {
        assert(cv_thread_ok(self.threads@[tid], tid, self.bumps, self.mutex_holder));
        self.lemma_holder_excludes(tid);
    }
}

/// Skipping a notification when no thread is counted loses nothing: with
/// `num_waiters` zero, no thread is between counting itself and uncounting
/// itself, so none has read the counter and not yet come back.
pub proof fn lemma_condvar_skip_is_safe(m: &CondvarModel, i: int)
    requires
        m.wf(),
        m.counts_waiters,
        m.num_waiters == 0,
        0 <= i < m.threads@.len(),
    ensures
        !(m.pc(i) is Registered),
        !(m.pc(i) is Snapshot),
        !(m.pc(i) is Released),
        !(m.pc(i) is Asleep),
        !(m.pc(i) is Woken),
{
    lemma_count_waiters_bounds(m.threads@, i);
}

/// No lost notification: a waiter that has read the counter and released
/// the mutex, after which at least one and fewer than 2^32 notifications
/// were made, finds the counter changed, so its futex wait returns at once
/// instead of sleeping.
pub proof fn lemma_condvar_no_lost_notification(m: &CondvarModel, tid: int)
    requires
        m.wf(),
        0 <= tid < m.threads@.len(),
        m.pc(tid) is Released,
        m.pc(tid)->Released_at < m.bumps,
        m.bumps - m.pc(tid)->Released_at < counter_range(),
    ensures
        m.counter != m.pc(tid)->Released_value,
{
    assert(cv_thread_ok(m.threads@[tid], tid, m.bumps, m.mutex_holder));
    lemma_counter_moved(m.pc(tid)->Released_at as int, m.bumps as int);
}

/// `wait` gives the mutex up while it sleeps: no waiter between its release
/// and its relock holds the mutex, while a waiter that has not yet released
/// it does.
pub proof fn lemma_condvar_wait_releases_mutex(m: &CondvarModel, tid: int)
    requires
        m.wf(),
        0 <= tid < m.threads@.len(),
    ensures
        cv_released(m.pc(tid)) ==> m.mutex_holder != Option::Some(tid as usize),
        cv_holds_in_wait(m.pc(tid)) ==> m.mutex_holder == Option::Some(tid as usize),
{
    assert(cv_thread_ok(m.threads@[tid], tid, m.bumps, m.mutex_holder));
}

/// A notification goes ahead exactly when at least one waiter is counted:
/// for every waiter count, none, one or many.
pub proof fn lemma_notify_goes_ahead_iff_waiters(waiters: usize)
    ensures
        spec_notify_needed(waiters) <==> waiters != 0,
        waiters >= 1 ==> spec_notify_needed(waiters),
{
}

/// A notification is never skipped while some waiter is inside `wait`: in
/// every reachable state of the counting condition variable in which a
/// thread has counted itself and not yet uncounted itself, a notifier's
/// check of `num_waiters` goes on to bump the counter and wake.
pub proof fn lemma_condvar_notify_reaches_waiters(m: &CondvarModel, waiter: int)
    requires
        m.wf(),
        m.counts_waiters,
        0 <= waiter < m.threads@.len(),
        cv_counted(m.pc(waiter)),
    ensures
        m.num_waiters >= 1,
        spec_notify_needed(m.num_waiters),
{
    lemma_count_waiters_bounds(m.threads@, waiter);
}

/// Two threads waiting make two counted waiters, and a notification then
/// goes ahead: the count adds up over all waiters rather than flagging a
/// single one.
pub proof fn lemma_condvar_notify_reaches_many_waiters(m: &CondvarModel, a: int, b: int)
    requires
        m.wf(),
        m.counts_waiters,
        0 <= a < m.threads@.len(),
        0 <= b < m.threads@.len(),
        a != b,
        cv_counted(m.pc(a)),
        cv_counted(m.pc(b)),
    ensures
        m.num_waiters >= 2,
        spec_notify_needed(m.num_waiters),
{
    lemma_count_waiters_update(m.threads@, a, CvPc::Idle);
    lemma_count_waiters_bounds(m.threads@.update(a, CvPc::Idle), b);
}

} // verus!

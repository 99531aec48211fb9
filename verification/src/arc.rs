use crate::platform::{acquire_fence, spin_hint};
use std::sync::atomic::AtomicUsize;
use std::sync::atomic::Ordering;
use vstd::prelude::*;

verus! {

/// The largest reference count that a clone may find before it refuses to go
/// on: beyond it the process aborts.
pub const MAX_REFS: usize = usize::MAX / 2;

/// The allocation count's value while `get_mut` checks for uniqueness;
/// `downgrade` spins while it sees it.
pub const ALLOC_LOCKED: usize = usize::MAX;

/// A clone that found `previous` references must abort: more than half the
/// range of `usize` is taken as a sign of leaked references.
pub open spec fn spec_clone_overflows(previous: usize) -> bool {
    previous > MAX_REFS
}

/// Decides whether a clone that found `previous` references aborts.
pub fn clone_overflows(previous: usize) -> (overflows: bool)
    ensures
        overflows == spec_clone_overflows(previous),
{
    previous > MAX_REFS
}

/// The count that was `previous` before a decrement reached zero: the caller
/// dropped the last reference.
pub fn drop_was_last(previous: usize) -> (last: bool)
    ensures
        last == (previous == 1),
{
    previous == 1
}

/// A reference is the only one exactly when the count it reads is 1.
pub open spec fn spec_count_is_unique(observed: usize) -> bool {
    observed == 1
}

/// Decides, from the count read, whether the caller's reference is the only
/// one.
pub fn count_is_unique(observed: usize) -> (unique: bool)
    ensures
        unique == spec_count_is_unique(observed),
{
    observed == 1
}

/// `get_mut` of an `Arc` with weak pointers grants access exactly when it
/// locked the allocation count (so no weak reference existed) and then read
/// a strong count of 1.
pub open spec fn spec_get_mut_grants(locked: bool, strong: usize) -> bool {
    locked && strong == 1
}

/// Decides `get_mut`'s answer from whether its `compare_exchange(1,
/// ALLOC_LOCKED)` succeeded and the strong count it then read.
pub fn get_mut_grants(locked: bool, strong: usize) -> (unique: bool)
    ensures
        unique == spec_get_mut_grants(locked, strong),
{
    locked && strong == 1
}

/// A clone refused because the count was already past `MAX_REFS`.
#[derive(Clone, Copy, PartialEq, Eq, Debug)]
pub struct RefCountOverflow;

/// One reference count, for an `Arc` without weak pointers.
pub struct RefCount {
    count: AtomicUsize,
}

impl RefCount {
    /// A count of one: the reference that creates it.
    pub fn new() -> (rc: RefCount) {
        RefCount { count: AtomicUsize::new(1) }
    }

    /// A clone: adds one reference, and reports an overflow when the count
    /// it found was past `MAX_REFS`.
    pub fn increment(&self) -> (r: Result<(), RefCountOverflow>) {
        let previous = self.count.fetch_add(1, Ordering::Relaxed);
        if clone_overflows(previous) {
            Result::Err(RefCountOverflow)
        } else {
            Result::Ok(())
        }
    }

    /// A drop: removes one reference and reports whether it was the last;
    /// then the caller frees the value.
    pub fn decrement(&self) -> (last: bool) {
        let previous = self.count.fetch_sub(1, Ordering::Release);
        if drop_was_last(previous) {
            acquire_fence();
            true
        } else {
            false
        }
    }

    /// Whether the caller's reference is the only one, which lets it change
    /// the value.
    pub fn is_unique(&self) -> (unique: bool) {
        let observed = self.count.load(Ordering::Relaxed);
        if count_is_unique(observed) {
            acquire_fence();
            true
        } else {
            false
        }
    }
}

/// The count of an `Arc` without weak pointers, the references that exist
/// and whether the value is still there: a model of every interleaving of
/// `RefCount`'s operations, each taking its decision through the same
/// function as `RefCount`.
pub struct RefCountModel {
    pub count: usize,
    pub refs: usize,
    pub alive: bool,
}

impl RefCountModel {
    /// The invariant: the count counts the references, and the value lives
    /// exactly while one exists.
    pub open spec fn wf(&self) -> bool {
        &&& self.count == self.refs
        &&& self.alive == (self.refs > 0)
    }

    /// The state after a clone.
    pub open spec fn after_increment(self) -> RefCountModel {
        RefCountModel { count: (self.count + 1) as usize, refs: (self.refs + 1) as usize, ..self }
    }

    /// The state after a drop: the last one drops the value.
    pub open spec fn after_decrement(self) -> RefCountModel {
        RefCountModel { count: (self.count - 1) as usize, refs: (self.refs - 1) as usize, alive: self.count != 1 }
    }

    /// `MyArc::new`: one reference.
    pub fn new() -> (m: RefCountModel)
        ensures
            m.wf(),
            m.refs == 1,
            m.alive,
    {
        RefCountModel { count: 1, refs: 1, alive: true }
    }

    /// A clone by a holder of a reference; the count found must not be past
    /// `MAX_REFS`, where the code aborts.
    pub fn increment(&mut self)
        requires
            old(self).wf(),
            old(self).refs > 0,
            !spec_clone_overflows(old(self).count),
        ensures
            final(self).wf(),
            *final(self) == old(self).after_increment(),
    {
        self.count = self.count + 1;
        self.refs = self.refs + 1;
    }

    /// A drop by a holder of a reference; the last one drops the value.
    pub fn decrement(&mut self) -> (last: bool)
        requires
            old(self).wf(),
            old(self).refs > 0,
        ensures
            final(self).wf(),
            last == (old(self).refs == 1),
            *final(self) == old(self).after_decrement(),
    {
        let previous = self.count;
        self.count = previous - 1;
        self.refs = self.refs - 1;
        if drop_was_last(previous) {
            self.alive = false;
            true
        } else {
            false
        }
    }

    /// `get_mut`'s test: the reference is the only one exactly when the count
    /// read is 1.
    pub fn is_unique(&self) -> (unique: bool)
        requires
            self.wf(),
        ensures
            unique == spec_count_is_unique(self.count),
            unique == (self.refs == 1),
    {
        count_is_unique(self.count)
    }
}

/// `get_mut` of the single-count `Arc` refuses while a clone lives and
/// grants again once that clone is dropped.
pub proof fn lemma_rc_get_mut_after_clone(m: RefCountModel)
    requires
        m.wf(),
        m.refs == 1,
    ensures
        m.after_increment().wf(),
        !spec_count_is_unique(m.after_increment().count),
        m.after_increment().after_decrement() == m,
        spec_count_is_unique(m.after_increment().after_decrement().count),
{
}

/// The single-count `Arc` drops its value exactly once: at the drop that
/// finds the count 1, after which no reference is left to drop again.
pub proof fn lemma_rc_dropped_once(m: RefCountModel)
    requires
        m.wf(),
        m.refs > 0,
    ensures
        m.after_decrement().wf(),
        m.alive,
        !m.after_decrement().alive <==> m.refs == 1,
        !m.after_decrement().alive ==> m.after_decrement().refs == 0,
{
}

/// What one round of `downgrade` ended with.
#[derive(Clone, Copy, PartialEq, Eq, Debug)]
pub enum DowngradeRound {
    /// A weak reference was added.
    Done,
    /// Not yet; the next round starts from this observed count.
    Retry(usize),
}

/// What one round of `upgrade` ended with.
#[derive(Clone, Copy, PartialEq, Eq, Debug)]
pub enum UpgradeRound {
    /// The value is gone: no strong reference is left.
    Dead,
    /// A strong reference was added.
    Upgraded,
    /// Not yet; the next round starts from this observed count.
    Retry(usize),
}

/// The two counts of an `Arc` with weak pointers: the strong references,
/// which keep the value, and the allocation references, which keep the
/// memory: every weak reference, plus one for all the strong ones together.
pub struct ArcCounts {
    alloc_ref_count: AtomicUsize,
    data_ref_count: AtomicUsize,
}

impl ArcCounts {
    /// One strong reference and its allocation reference.
    pub fn new() -> (counts: ArcCounts) {
        ArcCounts { alloc_ref_count: AtomicUsize::new(1), data_ref_count: AtomicUsize::new(1) }
    }

    /// Cloning a strong reference: adds one, reporting an overflow as
    /// `RefCount::increment` does.
    pub fn clone_strong(&self) -> (r: Result<(), RefCountOverflow>) {
        let previous = self.data_ref_count.fetch_add(1, Ordering::Relaxed);
        if clone_overflows(previous) {
            Result::Err(RefCountOverflow)
        } else {
            Result::Ok(())
        }
    }

    /// Dropping a strong reference: returns whether it was the last, in
    /// which case the caller drops the value and then drops the allocation
    /// reference that the strong ones shared.
    pub fn drop_strong(&self) -> (last: bool) {
        let previous = self.data_ref_count.fetch_sub(1, Ordering::Release);
        if drop_was_last(previous) {
            acquire_fence();
            true
        } else {
            false
        }
    }

    /// Cloning a weak reference: adds one allocation reference.
    pub fn clone_weak(&self) -> (r: Result<(), RefCountOverflow>) {
        let previous = self.alloc_ref_count.fetch_add(1, Ordering::Relaxed);
        if clone_overflows(previous) {
            Result::Err(RefCountOverflow)
        } else {
            Result::Ok(())
        }
    }

    /// Dropping an allocation reference: returns whether it was the last, in
    /// which case the caller frees the memory.
    pub fn drop_weak(&self) -> (last: bool) {
        let previous = self.alloc_ref_count.fetch_sub(1, Ordering::Release);
        if drop_was_last(previous) {
            acquire_fence();
            true
        } else {
            false
        }
    }

    /// Whether exactly one allocation reference exists, with an acquire fence
    /// when so.
    pub fn alloc_is_unique(&self) -> (unique: bool) {
        let observed = self.alloc_ref_count.load(Ordering::Relaxed);
        if count_is_unique(observed) {
            acquire_fence();
            true
        } else {
            false
        }
    }

    /// The allocation count as `downgrade` first sees it.
    pub fn observe_alloc(&self) -> (n: usize) {
        self.alloc_ref_count.load(Ordering::Relaxed)
    }

    /// The strong count as `upgrade` first sees it.
    pub fn observe_data(&self) -> (n: usize) {
        self.data_ref_count.load(Ordering::Relaxed)
    }

    /// One round of `downgrade` from the observed allocation count `n`:
    /// while `get_mut` holds the count at `ALLOC_LOCKED` it spins and looks
    /// again; otherwise it tries `compare_exchange_weak(n, n + 1)`.
    pub fn downgrade_round(&self, n: usize) -> (round: DowngradeRound)
        requires
            n != ALLOC_LOCKED - 1,
        ensures
            n == ALLOC_LOCKED ==> round is Retry,
    {
        if n == ALLOC_LOCKED {
            spin_hint();
            let again = self.alloc_ref_count.load(Ordering::Relaxed);
            return DowngradeRound::Retry(again);
        }
        match self.alloc_ref_count.compare_exchange_weak(n, n + 1, Ordering::Acquire, Ordering::Relaxed) {
            Result::Ok(_) => DowngradeRound::Done,
            Result::Err(e) => DowngradeRound::Retry(e),
        }
    }

    /// One round of `upgrade` from the observed strong count `n`: with no
    /// strong reference left the value is gone; otherwise it tries
    /// `compare_exchange_weak(n, n + 1)`.
    pub fn upgrade_round(&self, n: usize) -> (round: UpgradeRound)
        requires
            n != ALLOC_LOCKED,
        ensures
            (round is Dead) == (n == 0),
    {
        if n == 0 {
            return UpgradeRound::Dead;
        }
        match self.data_ref_count.compare_exchange_weak(n, n + 1, Ordering::Relaxed, Ordering::Relaxed) {
            Result::Ok(_) => UpgradeRound::Upgraded,
            Result::Err(e) => UpgradeRound::Retry(e),
        }
    }

    /// `get_mut`'s test: locks the allocation count from 1 to
    /// `ALLOC_LOCKED`, so that no weak reference can appear, reads whether
    /// the strong count is 1, and puts the allocation count back. Returns
    /// whether the caller's reference is the only one of either kind.
    pub fn get_mut_unique(&self) -> (unique: bool) {
        let locked = match self.alloc_ref_count.compare_exchange(1, ALLOC_LOCKED, Ordering::Acquire, Ordering::Relaxed) {
            Result::Ok(_) => true,
            Result::Err(_) => false,
        };
        if !locked {
            return get_mut_grants(false, 0);
        }
        let strong = self.data_ref_count.load(Ordering::Relaxed);
        self.alloc_ref_count.store(1, Ordering::Release);
        let unique = get_mut_grants(true, strong);
        if unique {
            acquire_fence();
        }
        unique
    }
}

/// The two counts of an `Arc` with weak pointers, the references that exist,
/// and whether the value and the memory are still there: a model of every
/// interleaving of `ArcCounts`' operations. A strong reference whose drop
/// found it was the last counts as a weak one until its allocation reference
/// is dropped too, as in the code.
pub struct ArcModel {
    pub data_ref_count: usize,
    pub alloc_ref_count: usize,
    pub strong: usize,
    pub weak: usize,
    pub data_alive: bool,
    pub alloc_alive: bool,
    pub get_mut_locked: bool,
}

impl ArcModel {
    /// The invariant: the strong count counts the strong references, the
    /// allocation count counts the weak ones plus one for the strong ones
    /// (or holds `ALLOC_LOCKED` while `get_mut` checks, when there is no weak
    /// reference), the value lives exactly while a strong reference exists,
    /// and the memory lives exactly while any reference exists.
    pub open spec fn wf(&self) -> bool {
        &&& self.data_ref_count == self.strong
        &&& self.data_alive == (self.strong > 0)
        &&& self.alloc_alive == (self.strong > 0 || self.weak > 0)
        &&& !self.get_mut_locked ==> self.alloc_ref_count == self.weak + (if self.strong > 0 { 1int } else { 0int })
            && self.alloc_ref_count < ALLOC_LOCKED
        &&& self.get_mut_locked ==> self.alloc_ref_count == ALLOC_LOCKED && self.weak == 0 && self.strong > 0
    }

    /// The state after a strong reference is cloned.
    pub open spec fn after_clone_strong(self) -> ArcModel {
        ArcModel { data_ref_count: (self.data_ref_count + 1) as usize, strong: (self.strong + 1) as usize, ..self }
    }

    /// The state after a strong reference is dropped: the last one drops the
    /// value and goes on as an allocation reference.
    pub open spec fn after_drop_strong(self) -> ArcModel {
        if self.strong == 1 {
            ArcModel {
                data_ref_count: 0,
                strong: 0,
                weak: (self.weak + 1) as usize,
                data_alive: false,
                ..self
            }
        } else {
            ArcModel { data_ref_count: (self.data_ref_count - 1) as usize, strong: (self.strong - 1) as usize, ..self }
        }
    }

    /// The state after an allocation reference is dropped: the last one frees
    /// the memory.
    pub open spec fn after_drop_weak(self) -> ArcModel {
        ArcModel {
            alloc_ref_count: (self.alloc_ref_count - 1) as usize,
            weak: (self.weak - 1) as usize,
            alloc_alive: self.alloc_ref_count != 1,
            ..self
        }
    }

    /// `MyArc::new`: one strong reference.
    pub fn new() -> (m: ArcModel)
        ensures
            m.wf(),
            m.strong == 1,
            m.weak == 0,
            m.data_alive,
            m.alloc_alive,
            !m.get_mut_locked,
    {
        ArcModel {
            data_ref_count: 1,
            alloc_ref_count: 1,
            strong: 1,
            weak: 0,
            data_alive: true,
            alloc_alive: true,
            get_mut_locked: false,
        }
    }

    /// Cloning a strong reference; the count found must not be past
    /// `MAX_REFS`, where the code aborts.
    pub fn clone_strong(&mut self)
        requires
            old(self).wf(),
            old(self).strong > 0,
            !spec_clone_overflows(old(self).data_ref_count),
        ensures
            final(self).wf(),
            *final(self) == old(self).after_clone_strong(),
    {
        self.data_ref_count = self.data_ref_count + 1;
        self.strong = self.strong + 1;
    }

    /// Dropping a strong reference. The caller that is inside `get_mut`
    /// keeps its own. When it was the last, the value is dropped and the
    /// reference goes on as the allocation reference it still has to drop.
    pub fn drop_strong(&mut self) -> (last: bool)
        requires
            old(self).wf(),
            old(self).strong > 0,
            old(self).get_mut_locked ==> old(self).strong > 1,
        ensures
            final(self).wf(),
            last == (old(self).strong == 1),
            *final(self) == old(self).after_drop_strong(),
            last ==> !final(self).data_alive,
            final(self).alloc_alive,
    {
        let previous = self.data_ref_count;
        self.data_ref_count = previous - 1;
        self.strong = self.strong - 1;
        if drop_was_last(previous) {
            self.data_alive = false;
            self.weak = self.weak + 1;
            true
        } else {
            false
        }
    }

    /// Cloning a weak reference; the count found must not be past
    /// `MAX_REFS`.
    pub fn clone_weak(&mut self)
        requires
            old(self).wf(),
            old(self).weak > 0,
            !spec_clone_overflows(old(self).alloc_ref_count),
        ensures
            final(self).wf(),
            *final(self) == (ArcModel {
                alloc_ref_count: (old(self).alloc_ref_count + 1) as usize,
                weak: (old(self).weak + 1) as usize,
                ..*old(self)
            }),
    {
        self.alloc_ref_count = self.alloc_ref_count + 1;
        self.weak = self.weak + 1;
    }

    /// Dropping an allocation reference. When it was the last, the memory is
    /// freed.
    pub fn drop_weak(&mut self) -> (last: bool)
        requires
            old(self).wf(),
            old(self).weak > 0,
        ensures
            final(self).wf(),
            last == (old(self).alloc_ref_count == 1),
            last == (old(self).weak == 1 && old(self).strong == 0),
            *final(self) == old(self).after_drop_weak(),
            final(self).alloc_ref_count == old(self).alloc_ref_count - 1,
            final(self).get_mut_locked == old(self).get_mut_locked,
            final(self).alloc_alive == !last,
    {
        let previous = self.alloc_ref_count;
        self.alloc_ref_count = previous - 1;
        self.weak = self.weak - 1;
        if drop_was_last(previous) {
            self.alloc_alive = false;
            true
        } else {
            false
        }
    }

    /// One `compare_exchange_weak(n, n + 1)` of `downgrade` on the
    /// allocation count, by a holder of a strong reference. It adds a weak
    /// reference exactly when the count is still `n`.
    pub fn downgrade_round(&mut self, n: usize) -> (round: DowngradeRound)
        requires
            old(self).wf(),
            old(self).strong > 0,
            n != ALLOC_LOCKED,
            n != ALLOC_LOCKED - 1,
        ensures
            final(self).wf(),
            old(self).alloc_ref_count == n ==> round == DowngradeRound::Done
                && *final(self) == (ArcModel { alloc_ref_count: (n + 1) as usize, weak: (old(self).weak + 1) as usize, ..*old(self) }),
            old(self).alloc_ref_count != n ==> round == DowngradeRound::Retry(old(self).alloc_ref_count)
                && *final(self) == *old(self),
    {
        if self.alloc_ref_count == n {
            self.alloc_ref_count = n + 1;
            self.weak = self.weak + 1;
            DowngradeRound::Done
        } else {
            DowngradeRound::Retry(self.alloc_ref_count)
        }
    }

    /// One round of `upgrade` from the observed strong count `n`, by a
    /// holder of a weak reference: with `n` zero the value is gone; otherwise
    /// `compare_exchange_weak(n, n + 1)` adds a strong reference exactly when
    /// the count is still `n`.
    pub fn upgrade_round(&mut self, n: usize) -> (round: UpgradeRound)
        requires
            old(self).wf(),
            old(self).weak > 0,
            n != ALLOC_LOCKED,
        ensures
            final(self).wf(),
            n == 0 ==> round == UpgradeRound::Dead && *final(self) == *old(self),
            n != 0 && old(self).data_ref_count == n ==> round == UpgradeRound::Upgraded && old(self).data_alive
                && *final(self) == old(self).after_clone_strong(),
            n != 0 && old(self).data_ref_count != n ==> round == UpgradeRound::Retry(old(self).data_ref_count)
                && *final(self) == *old(self),
    {
        if n == 0 {
            return UpgradeRound::Dead;
        }
        if self.data_ref_count == n {
            self.data_ref_count = n + 1;
            self.strong = self.strong + 1;
            UpgradeRound::Upgraded
        } else {
            UpgradeRound::Retry(self.data_ref_count)
        }
    }

    /// `get_mut`'s `compare_exchange(1, ALLOC_LOCKED)` by a holder of a
    /// strong reference: it locks exactly when the allocation count is 1.
    pub fn get_mut_lock(&mut self) -> (locked: bool)
        requires
            old(self).wf(),
            old(self).strong > 0,
        ensures
            final(self).wf(),
            locked == (old(self).alloc_ref_count == 1),
            locked ==> old(self).weak == 0
                && *final(self) == (ArcModel { alloc_ref_count: ALLOC_LOCKED, get_mut_locked: true, ..*old(self) }),
            !locked ==> *final(self) == *old(self),
    {
        if self.alloc_ref_count == 1 {
            self.alloc_ref_count = ALLOC_LOCKED;
            self.get_mut_locked = true;
            true
        } else {
            false
        }
    }

    /// `get_mut`'s read of the strong count while the allocation count is
    /// locked.
    pub fn get_mut_check(&self) -> (unique: bool)
        requires
            self.wf(),
            self.get_mut_locked,
        ensures
            unique == spec_get_mut_grants(true, self.data_ref_count),
            unique == (self.strong == 1),
            unique ==> self.weak == 0,
    {
        get_mut_grants(true, self.data_ref_count)
    }

    /// `get_mut`'s `store(1)`, which unlocks the allocation count.
    pub fn get_mut_release(&mut self)
        requires
            old(self).wf(),
            old(self).get_mut_locked,
        ensures
            final(self).wf(),
            *final(self) == (ArcModel { alloc_ref_count: 1, get_mut_locked: false, ..*old(self) }),
    {
        self.alloc_ref_count = 1;
        self.get_mut_locked = false;
    }

    /// The whole of `get_mut` with no other step in between: lock, read the
    /// strong count, put the allocation count back. The counts end as they
    /// began, and the answer is `spec_get_mut_grants` of what the steps saw.
    pub fn get_mut(&mut self) -> (unique: bool)
        requires
            old(self).wf(),
            old(self).strong > 0,
            !old(self).get_mut_locked,
        ensures
            final(self).wf(),
            *final(self) == *old(self),
            unique == spec_get_mut_grants(old(self).alloc_ref_count == 1, old(self).data_ref_count),
            unique == (old(self).strong == 1 && old(self).weak == 0),
    {
        if !self.get_mut_lock() {
            return get_mut_grants(false, 0);
        }
        let unique = self.get_mut_check();
        self.get_mut_release();
        unique
    }
}

/// The counts of the `Arc` whose strong references each hold a weak one:
/// every reference, strong or weak, holds an allocation reference, and the
/// strong ones also a data reference. A clone first clones the weak part and
/// then adds the data reference (`cloning` counts the clones in between); a
/// drop first removes the data reference and then drops the weak part
/// (`releasing`); an upgrade first adds the data reference and then clones
/// the weak part (`upgrading`). A model of every interleaving of these steps
/// on `ArcCounts`.
pub struct WeakArcModel {
    pub data_ref_count: usize,
    pub alloc_ref_count: usize,
    pub strong: usize,
    pub weak: usize,
    pub cloning: usize,
    pub releasing: usize,
    pub upgrading: usize,
    pub data_alive: bool,
    pub alloc_alive: bool,
}

impl WeakArcModel {
    /// The invariant: the data count counts the strong references and the
    /// upgrades under way, the allocation count counts every reference and
    /// every half-done clone and drop, an upgrade under way holds a weak
    /// reference, the value lives exactly while a data reference exists and
    /// the memory exactly while an allocation reference does.
    pub open spec fn wf(&self) -> bool {
        &&& self.data_ref_count == self.strong + self.upgrading
        &&& self.alloc_ref_count == self.strong + self.weak + self.cloning + self.releasing
        &&& self.upgrading <= self.weak
        &&& self.data_alive == (self.data_ref_count > 0)
        &&& self.alloc_alive == (self.alloc_ref_count > 0)
    }

    /// `MyArc::new`: one strong reference and its weak part.
    pub fn new() -> (m: WeakArcModel)
        ensures
            m.wf(),
            m.strong == 1,
            m.weak == 0,
            m.cloning == 0 && m.releasing == 0 && m.upgrading == 0,
            m.data_alive && m.alloc_alive,
    {
        WeakArcModel {
            data_ref_count: 1,
            alloc_ref_count: 1,
            strong: 1,
            weak: 0,
            cloning: 0,
            releasing: 0,
            upgrading: 0,
            data_alive: true,
            alloc_alive: true,
        }
    }

    /// The first step of cloning a strong reference: its weak part is cloned.
    pub fn clone_begin(&mut self)
        requires
            old(self).wf(),
            old(self).strong > 0,
            !spec_clone_overflows(old(self).alloc_ref_count),
        ensures
            final(self).wf(),
            *final(self) == (WeakArcModel {
                alloc_ref_count: (old(self).alloc_ref_count + 1) as usize,
                cloning: (old(self).cloning + 1) as usize,
                ..*old(self)
            }),
    {
        self.alloc_ref_count = self.alloc_ref_count + 1;
        self.cloning = self.cloning + 1;
    }

    /// The second step of a clone: the data reference is added.
    pub fn clone_finish(&mut self)
        requires
            old(self).wf(),
            old(self).cloning > 0,
            old(self).strong > 0,
            !spec_clone_overflows(old(self).data_ref_count),
        ensures
            final(self).wf(),
            *final(self) == (WeakArcModel {
                data_ref_count: (old(self).data_ref_count + 1) as usize,
                strong: (old(self).strong + 1) as usize,
                cloning: (old(self).cloning - 1) as usize,
                ..*old(self)
            }),
    {
        self.data_ref_count = self.data_ref_count + 1;
        self.strong = self.strong + 1;
        self.cloning = self.cloning - 1;
    }

    /// The first step of dropping a strong reference: its data reference is
    /// removed, and the last one drops the value.
    pub fn drop_begin(&mut self) -> (last: bool)
        requires
            old(self).wf(),
            old(self).strong > 0,
        ensures
            final(self).wf(),
            last == (old(self).data_ref_count == 1),
            last ==> old(self).strong == 1 && old(self).upgrading == 0,
            *final(self) == (WeakArcModel {
                data_ref_count: (old(self).data_ref_count - 1) as usize,
                strong: (old(self).strong - 1) as usize,
                releasing: (old(self).releasing + 1) as usize,
                data_alive: !last,
                ..*old(self)
            }),
    {
        let previous = self.data_ref_count;
        self.data_ref_count = previous - 1;
        self.strong = self.strong - 1;
        self.releasing = self.releasing + 1;
        let last = drop_was_last(previous);
        if last {
            self.data_alive = false;
        }
        last
    }

    /// The second step of a drop: the weak part is dropped, and the last
    /// allocation reference frees the memory.
    pub fn drop_finish(&mut self) -> (last: bool)
        requires
            old(self).wf(),
            old(self).releasing > 0,
        ensures
            final(self).wf(),
            last == (old(self).alloc_ref_count == 1),
            *final(self) == (WeakArcModel {
                alloc_ref_count: (old(self).alloc_ref_count - 1) as usize,
                releasing: (old(self).releasing - 1) as usize,
                alloc_alive: !last,
                ..*old(self)
            }),
    {
        let previous = self.alloc_ref_count;
        self.alloc_ref_count = previous - 1;
        self.releasing = self.releasing - 1;
        let last = drop_was_last(previous);
        if last {
            self.alloc_alive = false;
        }
        last
    }

    /// `downgrade` (by a strong reference) or a weak clone (by a weak one
    /// that is not upgrading): one more weak reference.
    pub fn add_weak(&mut self)
        requires
            old(self).wf(),
            old(self).strong > 0 || old(self).weak > 0,
            !spec_clone_overflows(old(self).alloc_ref_count),
        ensures
            final(self).wf(),
            *final(self) == (WeakArcModel {
                alloc_ref_count: (old(self).alloc_ref_count + 1) as usize,
                weak: (old(self).weak + 1) as usize,
                ..*old(self)
            }),
    {
        self.alloc_ref_count = self.alloc_ref_count + 1;
        self.weak = self.weak + 1;
    }

    /// Dropping a weak reference that is not upgrading; the last allocation
    /// reference frees the memory.
    pub fn drop_weak(&mut self) -> (last: bool)
        requires
            old(self).wf(),
            old(self).weak > old(self).upgrading,
        ensures
            final(self).wf(),
            last == (old(self).alloc_ref_count == 1),
            *final(self) == (WeakArcModel {
                alloc_ref_count: (old(self).alloc_ref_count - 1) as usize,
                weak: (old(self).weak - 1) as usize,
                alloc_alive: !last,
                ..*old(self)
            }),
    {
        let previous = self.alloc_ref_count;
        self.alloc_ref_count = previous - 1;
        self.weak = self.weak - 1;
        let last = drop_was_last(previous);
        if last {
            self.alloc_alive = false;
        }
        last
    }

    /// One round of `upgrade` by a weak reference that is not upgrading,
    /// from the observed data count `n`: zero means the value is gone;
    /// otherwise `compare_exchange_weak(n, n + 1)` adds a data reference
    /// exactly when the count is still `n`.
    pub fn upgrade_round(&mut self, n: usize) -> (round: UpgradeRound)
        requires
            old(self).wf(),
            old(self).weak > old(self).upgrading,
            n != ALLOC_LOCKED,
        ensures
            final(self).wf(),
            n == 0 ==> round == UpgradeRound::Dead && *final(self) == *old(self),
            n != 0 && old(self).data_ref_count == n ==> round == UpgradeRound::Upgraded && old(self).data_alive
                && *final(self) == (WeakArcModel {
                    data_ref_count: (n + 1) as usize,
                    upgrading: (old(self).upgrading + 1) as usize,
                    ..*old(self)
                }),
            n != 0 && old(self).data_ref_count != n ==> round == UpgradeRound::Retry(old(self).data_ref_count)
                && *final(self) == *old(self),
    {
        if n == 0 {
            return UpgradeRound::Dead;
        }
        if self.data_ref_count == n {
            self.data_ref_count = n + 1;
            self.upgrading = self.upgrading + 1;
            UpgradeRound::Upgraded
        } else {
            UpgradeRound::Retry(self.data_ref_count)
        }
    }

    /// The end of a successful upgrade: the weak reference is cloned to
    /// become the new strong reference's weak part.
    pub fn upgrade_finish(&mut self)
        requires
            old(self).wf(),
            old(self).upgrading > 0,
            !spec_clone_overflows(old(self).alloc_ref_count),
        ensures
            final(self).wf(),
            *final(self) == (WeakArcModel {
                alloc_ref_count: (old(self).alloc_ref_count + 1) as usize,
                strong: (old(self).strong + 1) as usize,
                upgrading: (old(self).upgrading - 1) as usize,
                ..*old(self)
            }),
    {
        self.alloc_ref_count = self.alloc_ref_count + 1;
        self.strong = self.strong + 1;
        self.upgrading = self.upgrading - 1;
    }

    /// `get_mut`'s test by a strong reference: the allocation count read is
    /// 1.
    pub fn get_mut(&self) -> (unique: bool)
        requires
            self.wf(),
            self.strong > 0,
        ensures
            unique == spec_count_is_unique(self.alloc_ref_count),
            unique ==> self.strong == 1 && self.weak == 0 && self.cloning == 0 && self.releasing == 0
                && self.upgrading == 0,
    {
        count_is_unique(self.alloc_ref_count)
    }
}

/// No use after free for the `Arc` whose strong references hold a weak
/// one: while any reference or half-done step holds an allocation
/// reference, the memory is there; the value is there exactly while a
/// strong reference or an upgrade under way holds it.
pub proof fn lemma_weak_arc_no_use_after_free(m: &WeakArcModel)
    requires
        m.wf(),
    ensures
        m.strong > 0 || m.weak > 0 || m.cloning > 0 || m.releasing > 0 ==> m.alloc_alive,
        m.data_alive <==> m.strong + m.upgrading > 0,
        m.strong > 0 ==> m.data_alive,
{
}

/// No use after free: while any reference, strong or weak, exists, the
/// memory is still allocated; and the value lives exactly while a strong
/// reference exists.
pub proof fn lemma_arc_no_use_after_free(m: &ArcModel)
    requires
        m.wf(),
    ensures
        m.strong > 0 || m.weak > 0 ==> m.alloc_alive,
        m.data_alive <==> m.strong > 0,
{
}

/// `get_mut` hands out the value only to the one reference that exists:
/// when its check succeeds there is one strong reference and no weak one.
pub proof fn lemma_arc_get_mut_exclusive(m: &ArcModel)
    requires
        m.wf(),
        m.get_mut_locked,
        m.data_ref_count == 1,
    ensures
        m.strong == 1,
        m.weak == 0,
{
}

/// Cloning a strong reference and then dropping one leaves the counts, the
/// references and what is alive as they were.
pub proof fn lemma_arc_clone_then_drop(m: ArcModel)
    requires
        m.wf(),
        m.strong > 0,
        !spec_clone_overflows(m.data_ref_count),
    ensures
        m.after_clone_strong().wf(),
        m.after_clone_strong().after_drop_strong() == m,
{
}

/// A clone aborts only past the limit: it aborts exactly when the count it
/// found is more than half the range of `usize`, so every count from 0 to
/// `usize::MAX / 2` clones normally.
pub proof fn lemma_clone_refused_only_past_limit(previous: usize)
    ensures
        spec_clone_overflows(previous) <==> previous > usize::MAX / 2,
        previous <= usize::MAX / 2 ==> !spec_clone_overflows(previous),
{
}

/// In the `Arc` with weak pointers, a holder of a strong or weak reference
/// can always clone it while the count it finds is at most
/// `usize::MAX / 2`, whatever the number of references already there.
pub proof fn lemma_arc_clone_allowed(m: &ArcModel)
    requires
        m.wf(),
        m.data_ref_count <= usize::MAX / 2,
        !m.get_mut_locked ==> m.alloc_ref_count <= usize::MAX / 2,
    ensures
        m.strong > 0 ==> !spec_clone_overflows(m.data_ref_count),
        m.weak > 0 ==> !spec_clone_overflows(m.alloc_ref_count),
{
}

/// In the single-count `Arc`, every clone made while the count is at most
/// `usize::MAX / 2` goes ahead and raises the count by one.
pub proof fn lemma_rc_clone_allowed(m: RefCountModel)
    requires
        m.wf(),
        m.refs > 0,
        m.count <= usize::MAX / 2,
    ensures
        !spec_clone_overflows(m.count),
        m.after_increment().wf(),
        m.after_increment().refs == m.refs + 1,
{
}

} // verus!

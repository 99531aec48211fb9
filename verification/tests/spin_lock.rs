use rust_atomics::spin_lock::{acquired_after_swap, SpinLock, SpinModel, SpinPc};

#[test]
fn spin_lock_taken_once_until_unlocked() {
    let lock = SpinLock::new();
    assert!(lock.try_lock());
    assert!(!lock.try_lock());
    lock.unlock();
    assert!(lock.try_lock());
}

#[test]
fn spin_decision_follows_previous_flag() {
    assert!(acquired_after_swap(false));
    assert!(!acquired_after_swap(true));
}

#[test]
fn spin_model_mutual_exclusion() {
    let mut m = SpinModel::new(3);
    assert!(m.try_lock(0));
    assert!(!m.try_lock(1));
    assert!(!m.try_lock(2));
    assert_eq!(m.threads, vec![SpinPc::Holding, SpinPc::Idle, SpinPc::Idle]);
    m.unlock(0);
    assert!(!m.locked);
    assert!(m.try_lock(2));
    assert_eq!(m.threads, vec![SpinPc::Idle, SpinPc::Idle, SpinPc::Holding]);
}

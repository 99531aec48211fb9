use rust_atomics::condvar;
use rust_atomics::condvar_waiters::{notify_needed, CondvarModel, CvPc};

#[test]
fn condvar_notify_without_waiters() {
    let cv = condvar::MyCondvar::new();
    cv.notify_one();
    cv.notify_all();
    let cv2 = rust_atomics::condvar_waiters::MyCondvar::new();
    cv2.notify_one();
    cv2.notify_all();
}

#[test]
fn condvar_decision() {
    assert!(notify_needed(1));
    assert!(!notify_needed(0));
}

#[test]
fn condvar_model_notify_skipped_without_waiters() {
    let mut m = CondvarModel::new(2);
    m.notify_check(1);
    assert_eq!(m.threads[1], CvPc::Idle);
    assert_eq!(m.counter, 0);
    assert_eq!(m.bumps, 0);
}

#[test]
fn condvar_model_notification_after_snapshot_is_not_lost() {
    let mut m = CondvarModel::new(2);
    m.lock(0);
    assert_eq!(m.mutex_holder, Some(0));
    m.wait_register(0);
    assert_eq!(m.num_waiters, 1);
    m.wait_snapshot(0);
    assert_eq!(m.threads[0], CvPc::Snapshot { value: 0, at: 0 });
    m.wait_release(0);
    assert_eq!(m.mutex_holder, None);
    assert_eq!(m.threads[0], CvPc::Released { value: 0, at: 0 });
    m.lock(1);
    m.notify_check(1);
    assert_eq!(m.threads[1], CvPc::Bumping);
    m.notify_bump(1);
    assert_eq!(m.counter, 1);
    assert_eq!(m.bumps, 1);
    m.notify_wake_one(1, None);
    m.unlock(1);
    m.wait_sleep(0);
    assert_eq!(m.threads[0], CvPc::Woken);
    m.wait_finish(0);
    assert_eq!(m.num_waiters, 0);
    assert_eq!(m.threads[0], CvPc::Relocking);
    m.wait_relock(0);
    assert_eq!(m.mutex_holder, Some(0));
    assert_eq!(m.threads, vec![CvPc::Idle, CvPc::Idle]);
    assert_eq!(m.counter, 1);
}

#[test]
fn condvar_model_sleepers_woken_by_notify_all() {
    let mut m = CondvarModel::new(3);
    for t in 0..2 {
        m.lock(t);
        m.wait_register(t);
        m.wait_snapshot(t);
        m.wait_release(t);
        m.wait_sleep(t);
    }
    assert_eq!(m.threads[0], CvPc::Asleep { value: 0, at: 0 });
    assert_eq!(m.threads[1], CvPc::Asleep { value: 0, at: 0 });
    assert_eq!(m.mutex_holder, None);
    m.notify_check(2);
    m.notify_bump(2);
    m.notify_wake_all(2);
    assert_eq!(m.threads, vec![CvPc::Woken, CvPc::Woken, CvPc::Idle]);
    assert_eq!(m.num_waiters, 2);
    m.wait_finish(1);
    m.wait_relock(1);
    assert_eq!(m.mutex_holder, Some(1));
}

#[test]
fn plain_condvar_model_always_notifies() {
    let mut m = CondvarModel::new_plain(2);
    assert!(!m.counts_waiters);
    m.plain_notify_start(1);
    assert_eq!(m.threads[1], CvPc::Bumping);
    m.notify_bump(1);
    assert_eq!(m.counter, 1);
    m.notify_wake_one(1, None);
    m.lock(0);
    m.plain_wait_snapshot(0);
    assert_eq!(m.threads[0], CvPc::Snapshot { value: 1, at: 1 });
    m.wait_release(0);
    m.wait_sleep(0);
    assert_eq!(m.threads[0], CvPc::Asleep { value: 1, at: 1 });
    m.plain_notify_start(1);
    m.notify_bump(1);
    assert_eq!(m.counter, 2);
    m.notify_wake_all(1);
    assert_eq!(m.threads[0], CvPc::Woken);
    m.plain_wait_finish(0);
    m.wait_relock(0);
    assert_eq!(m.mutex_holder, Some(0));
    assert_eq!(m.num_waiters, 0);
}

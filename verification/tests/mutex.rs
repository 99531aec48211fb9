use rust_atomics::mutex::{
    keeps_spinning, swap_acquires, unlock_wakes, MutexModel, MutexPc, RawMutex, CONTENDED, LOCKED, SPIN_LIMIT,
    UNLOCKED,
};

#[test]
fn raw_mutex_fast_path_and_unlock() {
    let m = RawMutex::new();
    assert!(m.try_lock());
    assert!(!m.try_lock());
    m.unlock();
    assert!(m.try_lock());
    m.unlock();
}

#[test]
fn raw_mutex_slow_path_on_free_mutex() {
    let m = RawMutex::new();
    assert!(m.try_lock_after_spinning());
    m.unlock();
    assert!(m.lock_contended_round());
    m.unlock();
    assert!(m.try_lock());
    m.unlock();
}

#[test]
fn raw_mutex_spinning_gives_up_when_held() {
    let m = RawMutex::new();
    assert!(m.try_lock());
    assert!(!m.try_lock_after_spinning());
    m.unlock();
}

#[test]
fn mutex_decisions() {
    assert!(keeps_spinning(LOCKED, 0));
    assert!(keeps_spinning(LOCKED, SPIN_LIMIT - 1));
    assert!(!keeps_spinning(LOCKED, SPIN_LIMIT));
    assert!(!keeps_spinning(CONTENDED, 0));
    assert!(!keeps_spinning(UNLOCKED, 0));
    assert!(swap_acquires(UNLOCKED));
    assert!(!swap_acquires(LOCKED));
    assert!(!swap_acquires(CONTENDED));
    assert!(unlock_wakes(CONTENDED));
    assert!(!unlock_wakes(LOCKED));
}

#[test]
fn mutex_model_contention_and_wakeup() {
    let mut m = MutexModel::new(2);
    m.lock_fast(0);
    assert_eq!(m.state, LOCKED);
    m.lock_fast(1);
    assert_eq!(m.threads[1], MutexPc::Spinning { spins: 0 });
    for _ in 0..SPIN_LIMIT {
        m.spin(1);
    }
    assert_eq!(m.threads[1], MutexPc::Spinning { spins: SPIN_LIMIT });
    m.spin(1);
    assert_eq!(m.threads[1], MutexPc::Retrying);
    m.retry(1);
    assert_eq!(m.threads[1], MutexPc::Swapping);
    m.swap(1);
    assert_eq!(m.state, CONTENDED);
    assert_eq!(m.threads[1], MutexPc::Waiting);
    m.wait(1);
    assert_eq!(m.threads[1], MutexPc::Asleep);
    m.unlock(0);
    assert_eq!(m.state, UNLOCKED);
    assert_eq!(m.threads[0], MutexPc::Waking);
    m.wake(0, Some(1));
    assert_eq!(m.threads, vec![MutexPc::Idle, MutexPc::Swapping]);
    m.swap(1);
    assert_eq!(m.threads[1], MutexPc::Holding);
    assert_eq!(m.state, CONTENDED);
    m.unlock(1);
    m.wake(1, None);
    assert_eq!(m.state, UNLOCKED);
    assert_eq!(m.threads, vec![MutexPc::Idle, MutexPc::Idle]);
}

#[test]
fn mutex_model_wait_returns_when_state_changed() {
    let mut m = MutexModel::new(2);
    m.lock_fast(0);
    m.lock_fast(1);
    m.spin(1);
    m.unlock(0);
    assert_eq!(m.threads[0], MutexPc::Idle);
    m.spin(1);
    assert_eq!(m.threads[1], MutexPc::Retrying);
    m.retry(1);
    assert_eq!(m.threads[1], MutexPc::Holding);
    assert_eq!(m.state, LOCKED);
}

#[test]
fn mutex_model_no_spin_path() {
    let mut m = MutexModel::new(2);
    m.lock_fast_no_spin(0);
    assert_eq!(m.threads[0], MutexPc::Holding);
    m.lock_fast_no_spin(1);
    assert_eq!(m.threads[1], MutexPc::Swapping);
    m.swap(1);
    m.wait(1);
    assert_eq!(m.threads[1], MutexPc::Asleep);
    m.unlock(0);
    m.wake(0, Some(1));
    m.swap(1);
    assert_eq!(m.threads, vec![MutexPc::Idle, MutexPc::Holding]);
}

#[test]
fn raw_mutex_locked_many_times() {
    let m = RawMutex::new();
    let mut count: u64 = 0;
    for _ in 0..5_000_000 {
        if !m.try_lock() {
            while !m.lock_contended_round() {}
        }
        count += 1;
        m.unlock();
    }
    assert_eq!(count, 5_000_000);
    assert!(m.try_lock());
    m.unlock();
}

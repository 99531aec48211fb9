use rust_atomics::rwlock::{
    read_tries, read_unlock_wakes, read_waits, RawRwLock, ReadRound, RwModel, RwPc, MAX_READERS, WRITE_LOCKED,
};

#[test]
fn raw_rwlock_readers_then_writer() {
    let l = RawRwLock::new();
    assert_eq!(l.observe(), 0);
    assert_eq!(l.read_round(0), ReadRound::Acquired);
    assert_eq!(l.read_round(0), ReadRound::Retry(1));
    assert_eq!(l.read_round(1), ReadRound::Acquired);
    assert_eq!(l.observe(), 2);
    l.read_unlock();
    l.read_unlock();
    assert_eq!(l.observe(), 0);
    assert!(l.write_round());
    assert_eq!(l.observe(), WRITE_LOCKED);
    l.write_unlock();
    assert_eq!(l.observe(), 0);
}

#[test]
fn rwlock_decisions() {
    assert!(read_tries(0));
    assert!(read_tries(MAX_READERS));
    assert!(!read_tries(WRITE_LOCKED));
    assert!(read_waits(WRITE_LOCKED));
    assert!(!read_waits(0));
    assert!(!read_waits(MAX_READERS));
    assert!(read_unlock_wakes(1));
    assert!(!read_unlock_wakes(2));
}

#[test]
fn rwlock_model_writer_excludes_readers() {
    let mut m = RwModel::new(3);
    m.write_start(0);
    assert_eq!(m.threads[0], RwPc::WriteTrying);
    m.write_try(0);
    assert_eq!(m.state, WRITE_LOCKED);
    m.read_start(1);
    assert_eq!(m.threads[1], RwPc::ReadTrying { seen: WRITE_LOCKED });
    m.read_try(1);
    assert_eq!(m.threads[1], RwPc::ReadWaiting);
    m.read_wait(1);
    assert_eq!(m.threads[1], RwPc::ReadAsleep);
    m.write_unlock(0);
    m.write_wake(0);
    assert_eq!(m.threads[1], RwPc::ReadReloading);
    m.read_reload(1);
    m.read_try(1);
    assert_eq!(m.threads[1], RwPc::Reading);
    assert_eq!(m.state, 1);
    m.write_start(2);
    m.write_try(2);
    assert_eq!(m.threads[2], RwPc::WriteWaiting { seen: 1 });
    m.write_wait(2);
    assert_eq!(m.threads[2], RwPc::WriteAsleep { seen: 1 });
    m.read_unlock(1);
    assert_eq!(m.threads[1], RwPc::ReadWaking);
    m.read_wake(1, Some(2));
    assert_eq!(m.threads, vec![RwPc::Idle, RwPc::Idle, RwPc::WriteTrying]);
    m.write_try(2);
    assert_eq!(m.threads[2], RwPc::Writing);
    assert_eq!(m.state, WRITE_LOCKED);
}

#[test]
fn rwlock_model_readers_counted() {
    let mut m = RwModel::new(3);
    for t in 0..3 {
        m.read_start(t);
    }
    m.read_try(0);
    assert_eq!(m.state, 1);
    m.read_try(1);
    assert_eq!(m.threads[1], RwPc::ReadTrying { seen: 1 });
    m.read_try(1);
    m.read_try(2);
    assert_eq!(m.threads[2], RwPc::ReadTrying { seen: 2 });
    m.read_try(2);
    assert_eq!(m.state, 3);
    assert_eq!(m.threads, vec![RwPc::Reading, RwPc::Reading, RwPc::Reading]);
    m.read_unlock(0);
    assert_eq!(m.threads[0], RwPc::Idle);
    assert_eq!(m.state, 2);
}

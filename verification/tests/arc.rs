use rust_atomics::arc::{
    clone_overflows, count_is_unique, drop_was_last, get_mut_grants, ArcCounts, ArcModel, DowngradeRound, RefCount,
    RefCountModel, UpgradeRound, WeakArcModel, ALLOC_LOCKED, MAX_REFS,
};

#[test]
fn ref_count_unique_after_other_dropped() {
    let rc = RefCount::new();
    assert!(rc.is_unique());
    assert_eq!(rc.increment(), Ok(()));
    assert!(!rc.is_unique());
    assert!(!rc.decrement());
    assert!(rc.is_unique());
    assert!(rc.decrement());
}

#[test]
fn arc_counts_weak_upgrade_and_death() {
    let c = ArcCounts::new();
    let n = c.observe_alloc();
    assert_eq!(n, 1);
    assert_eq!(c.downgrade_round(n), DowngradeRound::Done);
    assert_eq!(c.downgrade_round(1), DowngradeRound::Retry(2));
    assert_eq!(c.downgrade_round(2), DowngradeRound::Done);
    assert_eq!(c.observe_alloc(), 3);
    assert_eq!(c.upgrade_round(c.observe_data()), UpgradeRound::Upgraded);
    assert_eq!(c.observe_data(), 2);
    assert!(!c.drop_strong());
    assert!(!c.get_mut_unique());
    assert!(c.drop_strong());
    assert_eq!(c.upgrade_round(c.observe_data()), UpgradeRound::Dead);
    assert!(!c.drop_weak());
    assert!(!c.drop_weak());
    assert!(c.drop_weak());
}

#[test]
fn arc_counts_get_mut() {
    let c = ArcCounts::new();
    assert!(c.get_mut_unique());
    assert_eq!(c.clone_strong(), Ok(()));
    assert!(!c.get_mut_unique());
    assert!(!c.drop_strong());
    assert!(c.get_mut_unique());
    assert_eq!(c.downgrade_round(c.observe_alloc()), DowngradeRound::Done);
    assert!(!c.get_mut_unique());
    assert!(!c.drop_weak());
    assert!(c.get_mut_unique());
    assert!(c.alloc_is_unique());
    assert_eq!(c.clone_weak(), Ok(()));
    assert!(!c.alloc_is_unique());
}

#[test]
fn arc_decisions() {
    assert!(!clone_overflows(MAX_REFS));
    assert!(clone_overflows(MAX_REFS + 1));
    assert!(drop_was_last(1));
    assert!(!drop_was_last(2));
    let c = ArcCounts::new();
    assert!(matches!(c.downgrade_round(ALLOC_LOCKED), DowngradeRound::Retry(1)));
}

#[test]
fn arc_model_lifecycle() {
    let mut m = ArcModel::new();
    assert_eq!(m.downgrade_round(1), DowngradeRound::Done);
    assert_eq!(m.weak, 1);
    assert_eq!(m.alloc_ref_count, 2);
    m.clone_strong();
    assert_eq!(m.strong, 2);
    assert!(!m.drop_strong());
    assert!(m.drop_strong());
    assert!(!m.data_alive);
    assert!(m.alloc_alive);
    assert_eq!(m.weak, 2);
    assert_eq!(m.upgrade_round(0), UpgradeRound::Dead);
    assert!(!m.drop_weak());
    assert!(m.drop_weak());
    assert!(!m.alloc_alive);
}

#[test]
fn arc_model_get_mut_and_downgrade() {
    let mut m = ArcModel::new();
    assert!(m.get_mut_lock());
    assert!(m.get_mut_check());
    m.clone_strong();
    assert!(!m.get_mut_check());
    assert_eq!(m.downgrade_round(1), DowngradeRound::Retry(ALLOC_LOCKED));
    m.get_mut_release();
    assert_eq!(m.downgrade_round(1), DowngradeRound::Done);
    assert!(!m.get_mut_lock());
    assert_eq!(m.upgrade_round(2), UpgradeRound::Upgraded);
    assert_eq!(m.strong, 3);
}

#[test]
fn arc_model_clone_then_drop_restores() {
    let mut m = ArcModel::new();
    assert_eq!(m.downgrade_round(1), DowngradeRound::Done);
    let (data, alloc, strong, weak) = (m.data_ref_count, m.alloc_ref_count, m.strong, m.weak);
    m.clone_strong();
    assert_eq!(m.data_ref_count, data + 1);
    assert!(!m.drop_strong());
    assert_eq!((m.data_ref_count, m.alloc_ref_count, m.strong, m.weak), (data, alloc, strong, weak));
    assert!(m.data_alive && m.alloc_alive);
}

#[test]
fn get_mut_decisions() {
    assert!(count_is_unique(1));
    assert!(!count_is_unique(0));
    assert!(!count_is_unique(2));
    assert!(get_mut_grants(true, 1));
    assert!(!get_mut_grants(true, 2));
    assert!(!get_mut_grants(false, 1));
}

#[test]
fn ref_count_model_get_mut_after_clone() {
    let mut m = RefCountModel::new();
    assert!(m.is_unique());
    m.increment();
    assert!(!m.is_unique());
    assert!(!m.decrement());
    assert!(m.is_unique());
    assert!(m.alive);
    assert!(m.decrement());
    assert!(!m.alive);
    assert_eq!(m.refs, 0);
}

#[test]
fn arc_model_get_mut_whole() {
    let mut m = ArcModel::new();
    assert!(m.get_mut());
    assert!(!m.get_mut_locked);
    assert_eq!(m.alloc_ref_count, 1);
    assert_eq!(m.downgrade_round(1), DowngradeRound::Done);
    assert!(!m.get_mut());
    assert_eq!(m.alloc_ref_count, 2);
    assert!(!m.drop_weak());
    assert_eq!(m.alloc_ref_count, 1);
    assert!(!m.get_mut_locked);
    assert!(m.get_mut());
}

#[test]
fn weak_arc_model_upgrade_and_drop() {
    let mut m = WeakArcModel::new();
    assert!(m.get_mut());
    m.add_weak();
    assert!(!m.get_mut());
    assert_eq!(m.upgrade_round(1), UpgradeRound::Upgraded);
    m.upgrade_finish();
    assert_eq!((m.strong, m.weak, m.alloc_ref_count, m.data_ref_count), (2, 1, 3, 2));
    assert!(!m.drop_begin());
    assert!(!m.drop_finish());
    assert!(m.drop_begin());
    assert!(!m.data_alive);
    assert!(!m.drop_finish());
    assert_eq!(m.upgrade_round(0), UpgradeRound::Dead);
    assert!(m.drop_weak());
    assert!(!m.alloc_alive);
}

#[test]
fn weak_arc_model_clone_in_two_steps() {
    let mut m = WeakArcModel::new();
    m.clone_begin();
    assert_eq!((m.alloc_ref_count, m.data_ref_count, m.cloning), (2, 1, 1));
    assert!(!m.get_mut());
    m.clone_finish();
    assert_eq!((m.alloc_ref_count, m.data_ref_count, m.strong), (2, 2, 2));
}

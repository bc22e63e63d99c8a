use tupl_dp::engine::hot_reload::{
    activation_not_reached, activation_step, rollout_may_advance, route_request, version_not_found, ActivationStep,
    StrategyKind, VersionSelection,
    VersionId, VersionRegistry,
};

fn v(s: &str) -> VersionId {
    VersionId::new(s.to_string())
}

fn history(r: &VersionRegistry<u32>) -> Vec<String> {
    r.get_history().iter().map(|x| x.as_str().to_string()).collect()
}

#[test]
fn registry_keeps_bounded_history() {
    let mut r: VersionRegistry<u32> = VersionRegistry::new(2);
    r.add_version(v("a"), 1);
    r.set_active(v("a"));
    r.add_version(v("b"), 2);
    r.add_version(v("c"), 3);
    assert_eq!(history(&r), vec!["c", "b"]);
    // "a" fell off the history but is active, so its entry stays.
    assert_eq!(r.get_version(&v("a")), Some(&1));
    assert_eq!(r.get_active(), Some(&1));
    r.add_version(v("d"), 4);
    assert_eq!(history(&r), vec!["d", "c"]);
    // "b" fell off and was neither active nor staged.
    assert_eq!(r.get_version(&v("b")), None);
    assert_eq!(r.get_version(&v("d")), Some(&4));
    assert_eq!(r.get_staged(), None);
    r.set_staged(v("d"));
    assert_eq!(r.get_staged(), Some(&4));
    assert!(r.set_version_entry(&v("d"), 40));
    assert_eq!(r.get_version(&v("d")), Some(&40));
    assert!(!r.set_version_entry(&v("zz"), 1));
}

#[test]
fn registry_rollback() {
    let mut r: VersionRegistry<u32> = VersionRegistry::new(10);
    r.add_version(v("a"), 1);
    assert_eq!(r.rollback(), Err("No previous version to rollback to".to_string()));
    r.add_version(v("b"), 2);
    r.set_active(v("b"));
    let (current, previous) = r.rollback().unwrap();
    assert_eq!(current.as_str(), "b");
    assert_eq!(previous.as_str(), "a");
    assert_eq!(r.active_version().unwrap().as_str(), "a");
    assert_eq!(r.get_active(), Some(&1));
}

#[test]
fn zero_history_drops_new_versions() {
    let mut r: VersionRegistry<u32> = VersionRegistry::new(0);
    r.add_version(v("a"), 1);
    assert!(history(&r).is_empty());
    assert_eq!(r.get_version(&v("a")), None);
}

#[test]
fn activation_decisions() {
    assert_eq!(activation_step(StrategyKind::BlueGreen, true, 0), ActivationStep::ActivateAndComplete);
    assert_eq!(activation_step(StrategyKind::Canary, true, 0), ActivationStep::StartRollout);
    assert_eq!(activation_step(StrategyKind::ABTest, true, 0), ActivationStep::Activate);
    assert_eq!(activation_step(StrategyKind::Scheduled { activation_time: 100 }, true, 99), ActivationStep::NotYet);
    assert_eq!(activation_step(StrategyKind::Scheduled { activation_time: 100 }, true, 100), ActivationStep::ActivateAndComplete);
    assert_eq!(activation_step(StrategyKind::BlueGreen, false, 0), ActivationStep::NotStaged);
    assert_eq!(activation_step(StrategyKind::Scheduled { activation_time: 0 }, false, 100), ActivationStep::NotStaged);
    assert!(rollout_may_advance(10, 10, 0, 2));
    assert!(!rollout_may_advance(9, 10, 0, 2));
    assert!(!rollout_may_advance(10, 10, 2, 2));
    assert_eq!(version_not_found(&v("v_b")), "Version v_b not found");
    assert_eq!(activation_not_reached(1700), "Activation time not reached (scheduled: 1700)");
}

#[test]
fn rollout_routes_by_ring_place() {
    assert_eq!(route_request(12_345, 0), VersionSelection::Old);
    assert_eq!(route_request(12_345, 2_346), VersionSelection::New);
    assert_eq!(route_request(12_345, 2_345), VersionSelection::Old);
    assert_eq!(route_request(u64::MAX, 10_000), VersionSelection::New);
    for h in [0u64, 1, 9_999, 10_000, 77_777] {
        if route_request(h, 2_500) == VersionSelection::New {
            assert_eq!(route_request(h, 5_000), VersionSelection::New);
        }
    }
}

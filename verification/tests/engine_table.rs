use std::sync::Arc;
use tupl_dp::engine::rule_bundle::BundleId;
use tupl_dp::engine::rule_metadata::{AgentId, FlowId, RuleId, RuleScope};
use tupl_dp::engine::rule_table::{RuleQuery, RuleStats, RuleTable, TableRule};

fn scope_for(agents: &[&str], flows: &[&str]) -> RuleScope {
    let mut s = RuleScope::new();
    for a in agents {
        s.add_agent(AgentId::new(a.to_string()));
    }
    for f in flows {
        s.add_flow(FlowId::new(f.to_string()));
    }
    s
}

fn rule(name: &str, id: u128, priority: i32, scope: RuleScope) -> TableRule<String> {
    TableRule { rule: name.to_string(), rule_id: RuleId::from_u128(id), priority, scope }
}

fn names(v: &[Arc<tupl_dp::engine::rule_table::RuleEntry<String>>]) -> Vec<String> {
    v.iter().map(|e| (*e.rule).clone()).collect()
}

#[test]
fn add_get_and_duplicate() {
    let mut t: RuleTable<String> = RuleTable::new();
    assert!(t.is_empty());
    assert_eq!(t.add_rule(rule("a", 1, 10, RuleScope::new()), None), Ok(()));
    assert_eq!(t.len(), 1);
    let e = t.get_rule(&RuleId::from_u128(1)).unwrap();
    assert_eq!(*e.rule, "a");
    assert_eq!(e.priority(), 10);
    assert_eq!(e.stats, RuleStats::new());
    let err = t.add_rule(rule("b", 1, 5, RuleScope::new()), None).unwrap_err();
    assert_eq!(err, "Rule 00000000-0000-0000-0000-000000000001 already exists");
    assert_eq!(t.len(), 1);
    assert!(t.get_rule(&RuleId::from_u128(2)).is_none());
}

#[test]
fn query_ranks_and_dedups() {
    let mut t: RuleTable<String> = RuleTable::new();
    t.add_rule(rule("global", 5, 1, RuleScope::new()), None).unwrap();
    t.add_rule(rule("agent_low", 3, 2, scope_for(&["x"], &[])), None).unwrap();
    t.add_rule(rule("agent_flow", 2, 9, scope_for(&["x"], &["f"])), None).unwrap();
    t.add_rule(rule("tie_big", 9, 9, scope_for(&[], &["f"])), None).unwrap();
    t.add_rule(rule("other", 7, 50, scope_for(&["y"], &[])), None).unwrap();
    let q = RuleQuery::new().with_agent("x".to_string()).with_flow("f".to_string());
    assert_eq!(names(&t.query(&q)), vec!["agent_flow", "tie_big", "agent_low", "global"]);
    assert_eq!(names(&t.query(&RuleQuery::new())), vec!["global"]);
    let stats = t.get_table_stats();
    assert_eq!(stats.total_rules, 5);
    assert_eq!(stats.global_rules, 1);
    assert_eq!(stats.agent_indexes, 2);
    assert_eq!(stats.flow_indexes, 1);
    assert_eq!(stats.cache_size, 0);
}

#[test]
fn remove_keeps_index_keys() {
    let mut t: RuleTable<String> = RuleTable::new();
    t.add_rule(rule("a", 1, 1, scope_for(&["x"], &[])), None).unwrap();
    let removed = t.remove_rule(&RuleId::from_u128(1)).unwrap();
    assert_eq!(*removed.rule, "a");
    assert!(t.get_rule(&RuleId::from_u128(1)).is_none());
    assert!(t.query(&RuleQuery::new().with_agent("x".to_string())).is_empty());
    assert_eq!(t.get_table_stats().agent_indexes, 1);
    assert_eq!(
        t.remove_rule(&RuleId::from_u128(1)).unwrap_err(),
        "Rule 00000000-0000-0000-0000-000000000001 not found"
    );
}

#[test]
fn bundles_load_and_unload() {
    let mut t: RuleTable<String> = RuleTable::new();
    t.add_rule(rule("solo", 1, 1, RuleScope::new()), None).unwrap();
    let b = BundleId::new("b1".to_string());
    let clash = t.load_bundle(vec![rule("n", 2, 1, RuleScope::new()), rule("dup", 1, 1, RuleScope::new())], b.clone());
    assert_eq!(clash, Err("Rule 00000000-0000-0000-0000-000000000001 already exists".to_string()));
    assert_eq!(t.len(), 1);
    let loaded = t.load_bundle(vec![rule("n", 2, 1, RuleScope::new()), rule("m", 3, 1, RuleScope::new())], b.clone());
    assert_eq!(loaded, Ok(2));
    assert_eq!(t.len(), 3);
    assert_eq!(t.get_rule(&RuleId::from_u128(3)).unwrap().bundle_id.as_ref().unwrap().as_str(), "b1");
    assert_eq!(t.list_rule_ids(), vec![RuleId::from_u128(1), RuleId::from_u128(2), RuleId::from_u128(3)]);
    assert_eq!(t.unload_bundle(&b), Ok(2));
    assert_eq!(t.list_rule_ids(), vec![RuleId::from_u128(1)]);
    assert_eq!(t.unload_bundle(&b), Ok(0));
}

#[test]
fn stats_update_only_primary_index() {
    let mut t: RuleTable<String> = RuleTable::new();
    t.add_rule(rule("a", 1, 1, RuleScope::new()), None).unwrap();
    let id = RuleId::from_u128(1);
    assert_eq!(
        t.update_stats(&id, |mut s: RuleStats| {
            s.record_evaluation(true, 30);
            s.record_evaluation(false, 10);
            s.record_action();
            s
        }),
        Ok(())
    );
    let e = t.get_rule(&id).unwrap();
    assert_eq!(e.stats.evaluation_count, 2);
    assert_eq!(e.stats.match_count, 1);
    assert_eq!(e.stats.action_count, 1);
    assert_eq!(e.stats.avg_eval_time_us(), 20);
    assert!(e.stats.last_evaluated.is_some());
    assert_eq!(t.query(&RuleQuery::new())[0].stats.evaluation_count, 0);
    assert!(t.update_stats(&RuleId::from_u128(2), |s: RuleStats| s).is_err());
}

#[test]
fn cache_ttl_and_eviction() {
    let mut t: RuleTable<String> = RuleTable::with_config(1, 3);
    let id = RuleId::from_u128(7);
    let sec: u128 = 1_000_000_000;
    t.cache_decision_at("a", "f", 1, id, "ALLOW".to_string(), 10 * sec).unwrap();
    assert_eq!(t.get_cached_decision_at("a", "f", 1, 10 * sec), Some((id, "ALLOW".to_string())));
    assert_eq!(t.get_cached_decision_at("a", "f", 1, 11 * sec), Some((id, "ALLOW".to_string())));
    assert_eq!(t.get_cached_decision_at("a", "f", 1, 11 * sec + 1), None);
    assert_eq!(t.get_cached_decision_at("a", "f", 1, 9 * sec), None);
    assert_eq!(t.get_cached_decision_at("a", "g", 1, 10 * sec), None);
    t.cache_decision_at("a", "f", 1, id, "DENY".to_string(), 10 * sec).unwrap();
    assert_eq!(t.get_table_stats().cache_size, 1);
    assert_eq!(t.get_cached_decision_at("a", "f", 1, 10 * sec), Some((id, "DENY".to_string())));
    t.cache_decision_at("a", "f", 2, id, "x".to_string(), 10 * sec).unwrap();
    t.cache_decision_at("a", "f", 3, id, "x".to_string(), 20 * sec).unwrap();
    assert_eq!(t.get_table_stats().cache_size, 3);
    // Full: the two stale decisions go before the new one is stored.
    t.cache_decision_at("a", "f", 4, id, "x".to_string(), 20 * sec).unwrap();
    assert_eq!(t.get_table_stats().cache_size, 2);
    assert_eq!(t.evict_expired_cache_at(30 * sec), 2);
    assert_eq!(t.get_table_stats().cache_size, 0);
    t.cache_decision("a", "f", 9, id, "x".to_string()).unwrap();
    assert!(t.get_cached_decision("a", "f", 9).is_some());
    assert_eq!(t.clear_cache(), Ok(()));
    assert!(t.get_cached_decision("a", "f", 9).is_none());
}

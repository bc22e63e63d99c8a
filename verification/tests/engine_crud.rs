use std::sync::Arc;
use tupl_dp::engine::action_clause::{ActionClause, ActionType, AllowParams, DenyParams};
use tupl_dp::engine::bundle_crud::{
    deactivate_rule, first_clash, lifecycle_transition, revoke_rule, ConflictType, LifecycleError, LifecycleOp, LifecycleRefusal, RegisteredRule, RuleRegistry, RuleState,
    VersionedRule,
};
use tupl_dp::engine::rule_bundle::BundleId;
use tupl_dp::engine::rule_table::{RuleTable, TableRule};
use tupl_dp::engine::rule_metadata::{AgentId, RuleId, RuleScope};

fn scope(agents: &[&str]) -> RuleScope {
    let mut s = RuleScope::new();
    for a in agents {
        s.add_agent(AgentId::new(a.to_string()));
    }
    s
}

fn version(id: u128, priority: i32, agents: &[&str], deny: bool, state: RuleState) -> VersionedRule<String> {
    let actions = if deny {
        ActionClause::new(ActionType::Deny(DenyParams::default()))
    } else {
        ActionClause::new(ActionType::Allow(AllowParams::default()))
    };
    let reg = RegisteredRule {
        rule: format!("rule{}", id),
        rule_id: RuleId::from_u128(id),
        priority,
        scope: scope(agents),
        actions,
        bundle_id: None,
    };
    let mut v = VersionedRule::new(Arc::new(reg), "alice".to_string());
    v.state = state;
    v
}

#[test]
fn registry_versions_and_states() {
    let mut r: RuleRegistry<String> = RuleRegistry::new();
    let id = RuleId::from_u128(1);
    r.add_rule(id, version(1, 10, &["x"], false, RuleState::Active), Some(BundleId::new("b".to_string())));
    assert_eq!(r.get_active_rule(&id).unwrap().version, 1);
    assert!(r.get_staged_rule(&id).is_none());
    let mut v2 = version(1, 20, &["x"], false, RuleState::Staged);
    v2.bump_version("bob".to_string());
    assert_eq!(v2.version, 2);
    r.add_rule(id, v2, Some(BundleId::new("b".to_string())));
    assert_eq!(r.get_latest_version(&id).unwrap().version, 2);
    assert_eq!(r.version_numbers(&id), vec![1, 2]);
    assert_eq!(r.list_rules(Some(RuleState::Staged)), vec![id]);
    assert_eq!(r.list_rules(None), vec![id]);
    assert_eq!(r.promote_staged_to_active(&id), Ok(()));
    assert!(r.get_staged_rule(&id).is_none());
    assert_eq!(r.get_active_rule(&id).unwrap().version, 2);
    assert_eq!(r.get_active_rule(&id).unwrap().state, RuleState::Active);
    assert_eq!(
        r.promote_staged_to_active(&id),
        Err("No staged rule found for 00000000-0000-0000-0000-000000000001".to_string())
    );
    assert_eq!(r.update_state(&id, RuleState::Paused), Ok(()));
    assert_eq!(r.get_latest_version(&id).unwrap().state, RuleState::Paused);
    assert_eq!(r.list_rules(Some(RuleState::Paused)), vec![id]);
    assert_eq!(r.bundle_rule_ids(&BundleId::new("b".to_string())), Ok(vec![id]));
    assert_eq!(r.bundle_rule_ids(&BundleId::new("c".to_string())), Err("Bundle c not found".to_string()));
    assert!(r.version_numbers(&RuleId::from_u128(9)).is_empty());
}

#[test]
fn registry_conflicts() {
    let mut r: RuleRegistry<String> = RuleRegistry::new();
    r.add_rule(RuleId::from_u128(1), version(1, 10, &["x"], false, RuleState::Active), None);
    r.add_rule(RuleId::from_u128(2), version(2, 20, &["y"], true, RuleState::Active), None);
    let deny = ActionClause::new(ActionType::Deny(DenyParams::default()));
    let found = r.detect_conflicts(10, &scope(&["x"]), &deny, None);
    assert_eq!(found.len(), 1);
    assert_eq!(found[0].conflicting_rule_id, RuleId::from_u128(1));
    assert_eq!(found[0].conflict_type, ConflictType::PriorityConflict);
    assert_eq!(found[0].description, "Conflicts with existing rule 00000000-0000-0000-0000-000000000001");
    let allow = ActionClause::new(ActionType::Allow(AllowParams::default()));
    let found = r.detect_conflicts(5, &RuleScope::new(), &allow, None);
    assert_eq!(found.len(), 1);
    assert_eq!(found[0].conflicting_rule_id, RuleId::from_u128(2));
    assert_eq!(found[0].conflict_type, ConflictType::ActionConflict);
    assert!(r.detect_conflicts(5, &RuleScope::new(), &allow, Some(RuleId::from_u128(2))).is_empty());
}

#[test]
fn lifecycle_transitions_follow_the_states() {
    assert_eq!(lifecycle_transition(LifecycleOp::Create { immediate: true }, None), Ok(RuleState::Active));
    assert_eq!(lifecycle_transition(LifecycleOp::Create { immediate: false }, None), Ok(RuleState::Staged));
    assert_eq!(lifecycle_transition(LifecycleOp::Create { immediate: true }, Some(RuleState::Staged)), Err(LifecycleRefusal::AlreadyExists));
    assert_eq!(lifecycle_transition(LifecycleOp::Deactivate, Some(RuleState::Active)), Ok(RuleState::Paused));
    assert_eq!(lifecycle_transition(LifecycleOp::Deactivate, Some(RuleState::Paused)), Err(LifecycleRefusal::NotActive));
    assert_eq!(lifecycle_transition(LifecycleOp::Deactivate, None), Err(LifecycleRefusal::NotFound));
    assert_eq!(lifecycle_transition(LifecycleOp::Reactivate, Some(RuleState::Paused)), Ok(RuleState::Active));
    assert_eq!(lifecycle_transition(LifecycleOp::Reactivate, Some(RuleState::Active)), Err(LifecycleRefusal::NotPaused));
    assert_eq!(lifecycle_transition(LifecycleOp::Revoke, Some(RuleState::Paused)), Ok(RuleState::Revoked));
    assert_eq!(lifecycle_transition(LifecycleOp::Revoke, None), Err(LifecycleRefusal::NotFound));
}

#[test]
fn revoked_rule_stays_revoked() {
    for op in [LifecycleOp::Create { immediate: true }, LifecycleOp::Deactivate, LifecycleOp::Reactivate, LifecycleOp::Revoke] {
        assert!(lifecycle_transition(op, Some(RuleState::Revoked)).is_err());
    }
    assert_eq!(lifecycle_transition(LifecycleOp::Revoke, Some(RuleState::Revoked)), Err(LifecycleRefusal::AlreadyRevoked));
}

fn registered(id: u128, priority: i32, agents: &[&str], deny: bool) -> RegisteredRule<String> {
    let v = version(id, priority, agents, deny, RuleState::Staged);
    let r = &*v.rule;
    RegisteredRule {
        rule: r.rule.clone(),
        rule_id: r.rule_id,
        priority: r.priority,
        scope: r.scope.clone(),
        actions: r.actions.clone(),
        bundle_id: None,
    }
}

#[test]
fn bundle_rules_that_clash_are_found() {
    let apart = vec![registered(1, 10, &["x"], false), registered(2, 20, &["y"], true)];
    assert_eq!(first_clash(&apart), None);
    let same_priority = vec![registered(1, 10, &["x"], false), registered(2, 20, &["y"], false), registered(3, 10, &["x"], false)];
    assert_eq!(first_clash(&same_priority), Some((0, 2)));
    let same_id = vec![registered(1, 10, &["x"], false), registered(1, 20, &["y"], false)];
    assert_eq!(first_clash(&same_id), Some((0, 1)));
    assert_eq!(first_clash::<String>(&vec![]), None);
}

fn table_with(id: u128) -> RuleTable<String> {
    let mut t: RuleTable<String> = RuleTable::new();
    let rule = TableRule { rule: format!("rule{}", id), rule_id: RuleId::from_u128(id), priority: 10, scope: scope(&["x"]) };
    t.add_rule(rule, None).unwrap();
    t
}

#[test]
fn deactivation_unloads_and_pauses() {
    let id = RuleId::from_u128(7);
    let mut reg: RuleRegistry<String> = RuleRegistry::new();
    reg.add_rule(id, version(7, 10, &["x"], false, RuleState::Active), None);
    let mut t = table_with(7);
    assert_eq!(deactivate_rule(&mut reg, &mut t, &id), Ok(()));
    assert!(t.get_rule(&id).is_none());
    assert_eq!(reg.get_active_rule(&id).unwrap().state, RuleState::Paused);
    assert_eq!(
        deactivate_rule(&mut reg, &mut t, &id),
        Err(LifecycleError::Refused(LifecycleRefusal::NotActive))
    );
}

#[test]
fn revocation_unloads_and_is_final() {
    let id = RuleId::from_u128(8);
    let mut reg: RuleRegistry<String> = RuleRegistry::new();
    reg.add_rule(id, version(8, 10, &["x"], false, RuleState::Active), None);
    let mut t = table_with(8);
    assert_eq!(revoke_rule(&mut reg, &mut t, &id), Ok(()));
    assert!(t.get_rule(&id).is_none());
    assert_eq!(reg.get_latest_version(&id).unwrap().state, RuleState::Revoked);
    assert_eq!(
        revoke_rule(&mut reg, &mut t, &id),
        Err(LifecycleError::Refused(LifecycleRefusal::AlreadyRevoked))
    );
    let missing = RuleId::from_u128(9);
    assert_eq!(
        deactivate_rule(&mut reg, &mut t, &missing),
        Err(LifecycleError::Refused(LifecycleRefusal::NotFound))
    );
}

use std::time::Duration;
use tupl_dp::engine::action_clause::{
    ActionClause, ActionType, AllowParams, AllowedSideEffect, CallbackParams, DenyParams,
};
use tupl_dp::engine::bundle_crud::{check_conflict, validate_rule_fields, ConflictType};
use tupl_dp::engine::bundle_validation::{check_time_window, RuleFacts};
use tupl_dp::engine::execution_constraints::{
    budget_violations, constraint_config_error, remaining_ms, BudgetViolation,
};
use tupl_dp::engine::rule_bundle::{BundleValidator, ValidationError, ValidationResult, ValidationWarning};
use tupl_dp::engine::rule_metadata::{AgentId, FlowId, RuleScope};

fn callback() -> ActionType {
    ActionType::Callback(CallbackParams {
        endpoint: "e".to_string(),
        event_type: "t".to_string(),
        include_payload: false,
        async_delivery: false,
    })
}

fn facts(id: &str, priority: i32, scope: RuleScope) -> RuleFacts {
    RuleFacts {
        rule_id: id.to_string(),
        priority,
        scope,
        wasm_digest: None,
        primary_action: ActionType::Allow(AllowParams::default()),
        max_exec_ms: 5,
        cpu_shares: Some(10),
        memory_limit_bytes: Some(1024 * 1024),
        sampling_rate_in_range: true,
        max_retries: None,
    }
}

fn agents(names: &[&str]) -> RuleScope {
    RuleScope::for_agents(names.iter().map(|n| AgentId::new(n.to_string())).collect())
}

#[test]
fn empty_bundle_and_id() {
    let v = BundleValidator::new();
    let r = v.validate_facts("", &vec![], &vec![], None);
    assert!(!r.valid);
    assert_eq!(
        r.errors,
        vec![ValidationError::EmptyBundle, ValidationError::InvalidBundleId("Bundle ID Cannot be empty".to_string())]
    );
}

#[test]
fn valid_bundle_has_no_errors() {
    let v = BundleValidator::new();
    let rules = vec![facts("a", 1, agents(&["x"])), facts("b", 2, agents(&["y"]))];
    let r = v.validate_facts("bundle", &rules, &vec![], None);
    assert!(r.valid);
    assert!(r.errors.is_empty());
    assert!(r.warnings.is_empty());
}

#[test]
fn duplicates_priorities_and_conflicts() {
    let v = BundleValidator::new().with_max_priority(100);
    let rules = vec![
        facts("a", 5, agents(&["x"])),
        facts("a", 7, agents(&["y"])),
        facts("c", 5, agents(&["x"])),
        facts("d", 2000, RuleScope::global()),
    ];
    let r = v.validate_facts("b", &rules, &vec![], None);
    assert_eq!(
        r.errors,
        vec![
            ValidationError::DuplicateRuleId("a".to_string()),
            ValidationError::InvalidPriority { rule_id: "d".to_string(), priority: 2000 },
            ValidationError::PriorityConflict { rule_id1: "a".to_string(), rule_id2: "c".to_string(), priority: 5 },
            ValidationError::RuleConflict {
                rule_id1: "a".to_string(),
                rule_id2: "c".to_string(),
                reason: "Same priority with overlapping scopes".to_string(),
            },
        ]
    );
    assert!(r.warnings.contains(&ValidationWarning::HighPriority { rule_id: "d".to_string(), priority: 2000 }));
    assert!(r.warnings.contains(&ValidationWarning::OverlappingScopes { rule_id1: "a".to_string(), rule_id2: "c".to_string() }));
}

#[test]
fn scopes_constraints_side_effects_signature() {
    let v = BundleValidator::new().require_signatures(true).with_max_rules(1);
    let mut bad = facts("r1", 1, RuleScope::new());
    bad.max_exec_ms = 2000;
    bad.memory_limit_bytes = Some(200 * 1024 * 1024);
    bad.cpu_shares = Some(101);
    bad.primary_action = callback();
    bad.wasm_digest = Some(String::new());
    let mut other = facts("r2", 3, agents(&["z"]));
    other.scope.add_flow(FlowId::new("f".to_string()));
    let r = v.validate_facts("b", &vec![bad, other], &vec![AllowedSideEffect::Logging], Some("short"));
    assert_eq!(
        r.errors,
        vec![
            ValidationError::InvalidWasmHook { rule_id: "r1".to_string(), reason: "Empty WASM digest".to_string() },
            ValidationError::InvalidScope("Rule r1 has empty scope".to_string()),
            ValidationError::InvalidConstraint {
                rule_id: "r1".to_string(),
                reason: "Invalid constraint configuration: cpu_shares must be between 0 and 100".to_string(),
            },
            ValidationError::DisallowedSideEffect { rule_id: "r1".to_string(), side_effect: "Callback".to_string() },
            ValidationError::SignatureVerificationFailed("Invalid signature format".to_string()),
        ]
    );
    assert_eq!(
        r.warnings,
        vec![
            ValidationWarning::LargeBundle { rule_count: 2 },
            ValidationWarning::OverlappingScopes { rule_id1: "r1".to_string(), rule_id2: "r2".to_string() },
            ValidationWarning::HighMemoryConstraint { rule_id: "r1".to_string(), limit_mb: 200 },
            ValidationWarning::LongTimeout { rule_id: "r1".to_string(), timeout_ms: 2000 },
        ]
    );
    let none = v.validate_facts("b", &vec![facts("q", 1, RuleScope::global())], &vec![], None);
    assert_eq!(none.errors, vec![ValidationError::SignatureVerificationFailed("No signature present".to_string())]);
}

#[test]
fn constraint_checks() {
    assert_eq!(constraint_config_error(0, None, true, None), Some("max_exec_ms must be greater than 0".to_string()));
    assert_eq!(constraint_config_error(5, None, false, None), Some("sampling_rate must be between 0.0 and 1.0".to_string()));
    assert_eq!(constraint_config_error(5, Some(50), true, Some(11)), Some("max_retries should not exceed 10".to_string()));
    assert_eq!(constraint_config_error(5, Some(100), true, Some(10)), None);
    assert_eq!(
        budget_violations(10, 5, 2048, Some(1024)),
        vec![
            BudgetViolation::TimeoutExceeded { allowed_ms: 5, actual_ms: 10 },
            BudgetViolation::MemoryExceeded { limit_bytes: 1024, actual_bytes: 2048 },
        ]
    );
    assert!(budget_violations(4, 5, 10, None).is_empty());
    assert_eq!(remaining_ms(5, 8), -3);
}

#[test]
fn crud_conflicts() {
    let allow = ActionClause::new(ActionType::Allow(AllowParams::default()));
    let deny = ActionClause::new(ActionType::Deny(DenyParams::default()));
    let x = agents(&["x"]);
    let y = agents(&["y"]);
    assert_eq!(check_conflict(1, &x, &allow, 1, &x, &allow), Some(ConflictType::PriorityConflict));
    assert_eq!(check_conflict(1, &x, &allow, 2, &x, &deny), Some(ConflictType::ActionConflict));
    assert_eq!(check_conflict(1, &x, &allow, 1, &y, &deny), None);
    assert_eq!(check_conflict(1, &RuleScope::new(), &allow, 1, &y, &allow), Some(ConflictType::PriorityConflict));
    assert_eq!(validate_rule_fields("r", 10001), Err("Priority too high (max: 10000)".to_string()));
    assert_eq!(validate_rule_fields("", 1), Err("Rule ID cannot be empty".to_string()));
    assert_eq!(validate_rule_fields("r", 10000), Ok(()));
    let _ = Duration::from_millis(1);
}

#[test]
fn time_window_must_end_after_it_starts() {
    let mut r = ValidationResult::valid();
    check_time_window(&mut r, 100, 200);
    assert!(r.valid);
    assert!(r.errors.is_empty());
    check_time_window(&mut r, 200, 200);
    assert!(!r.valid);
    assert_eq!(r.errors, vec![ValidationError::InvalidRolloutPolicy("End time must be after start time".to_string())]);
    check_time_window(&mut r, 300, 100);
    assert_eq!(r.errors.len(), 2);
}

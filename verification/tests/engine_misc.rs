use tupl_dp::engine::bundle_crud::{OperationHandle, RevocationPolicy as CrudRevocation};
use tupl_dp::engine::execution_constraints::RetryPolicy;
use tupl_dp::engine::hot_reload::{compute_request_hash, VersionId};
use tupl_dp::engine::rule_bundle::{
    BundleId, BundleValidator, RevocationPolicy, ValidationError, ValidationResult, ValidationWarning,
};
use tupl_dp::engine::rule_metadata::{
    AgentId, EnforcementClass, EnforcementMode, FlowId, RuleId, RuleMetadata, RuleMetadataBuilder,
    RuleScope, RuleState, UtcTimestamp,
};
use tupl_dp::engine::rule_table::RuleQuery;

#[test]
fn rule_id_text_is_hyphenated_hex() {
    let id = RuleId::from_u128(0x0123456789abcdef0123456789abcdef);
    assert_eq!(id.as_str(), "01234567-89ab-cdef-0123-456789abcdef");
    assert_eq!(id.as_u128(), 0x0123456789abcdef0123456789abcdef);
    assert_eq!(RuleId::new().as_str().len(), 36);
    let fresh = RuleId::new().as_u128();
    assert_eq!((fresh >> 76) & 0xf, 4);
    assert_eq!((fresh >> 62) & 0x3, 2);
}

#[test]
fn scope_matching() {
    let global = RuleScope::global();
    assert!(global.matches(None, None));
    assert_eq!(global.entity_count(), usize::MAX);
    let mut s = RuleScope::for_agents(vec![AgentId::new("a".to_string()), AgentId::new("a".to_string())]);
    assert_eq!(s.agent_ids.len(), 1);
    s.add_flow(FlowId::new("f".to_string()));
    assert!(s.matches(Some(&AgentId::new("a".to_string())), None));
    assert!(s.matches(Some(&AgentId::new("z".to_string())), Some(&FlowId::new("f".to_string()))));
    assert!(!s.matches(Some(&AgentId::new("z".to_string())), None));
    assert_eq!(s.entity_count(), 2);
    s.set_global();
    assert!(s.is_global());
    s.add_agent(AgentId::new("b".to_string()));
    assert!(!s.is_global());
}

#[test]
fn rule_state_predicates() {
    assert!(RuleState::Active.is_active());
    assert!(RuleState::Staged.is_evaluable());
    assert!(!RuleState::Paused.is_evaluable());
    assert!(RuleState::Revoked.is_revoked());
    assert_eq!(RuleState::default(), RuleState::Staged);
    assert_eq!(RuleState::Revoked.display_name(), "revoked");
    assert_eq!(EnforcementMode::Soft.display_name(), "SOFT");
    assert_eq!(EnforcementClass::RateLimit.display_name(), "rate_limit");
}

#[test]
fn metadata_lifecycle_and_versions() {
    let mut m = RuleMetadata::new("signer".to_string(), RuleScope::global(), EnforcementMode::Soft);
    assert_eq!(m.version(), 1);
    assert_eq!(m.priority(), 500);
    assert_eq!(m.state(), RuleState::Staged);
    m.activate();
    assert!(m.is_active());
    m.pause();
    assert!(!m.is_evaluable());
    m.revoke();
    assert_eq!(m.state(), RuleState::Revoked);
    m.activate();
    assert_eq!(m.state(), RuleState::Revoked);
    assert!(!m.is_active());
    m.pause();
    assert_eq!(m.state(), RuleState::Revoked);
    let v2 = m.new_version("other".to_string());
    assert_eq!(v2.version(), 2);
    assert_eq!(v2.rule_id(), m.rule_id());
    assert_eq!(v2.state(), RuleState::Staged);
    assert_eq!(v2.signer(), "other");
    assert_eq!(v2.enforcement_mode(), EnforcementMode::Soft);
}

#[test]
fn metadata_builder_and_describe() {
    let m = RuleMetadataBuilder::new()
        .rule_id(RuleId::from_u128(1))
        .version(3)
        .signer("s".to_string())
        .priority(-5)
        .bundle_id("b1".to_string())
        .created_at(UtcTimestamp { secs: 10, nanos: 0 })
        .state(RuleState::Active)
        .enforcement_class(EnforcementClass::Transform)
        .build();
    assert_eq!(m.bundle_id(), Some("b1"));
    assert_eq!(m.created_at().secs, 10);
    assert_eq!(
        m.describe(),
        "Rule[ID: 00000000-0000-0000-0000-000000000001, Ver: 3, State: active, Mode: HARD, Class: transform, \n                Priority: -5, Scope: 0 agents, 0 flows]"
    );
    assert!(m.matches_scope(None, None) == false);
}

#[test]
fn retry_delays() {
    let p = RetryPolicy::new(4, 10);
    assert_eq!(p.delay_after_failure(0), Some(10));
    assert_eq!(p.delay_after_failure(2), Some(10));
    assert_eq!(p.delay_after_failure(3), None);
    let e = p.with_exponential_backoff();
    assert_eq!(e.delay_after_failure(0), Some(10));
    assert_eq!(e.delay_after_failure(1), Some(20));
    assert_eq!(e.delay_after_failure(2), Some(40));
    assert_eq!(e.delay_after_failure(3), None);
}

#[test]
fn version_ids_and_request_hash() {
    let v = VersionId::from_bundle(&BundleId::new("bundle-7".to_string()));
    assert_eq!(v.as_str(), "v_bundle-7");
    assert_eq!(VersionId::new("x".to_string()).as_str(), "x");
    assert_eq!(compute_request_hash("a", "f"), compute_request_hash("a", "f"));
    assert_ne!(compute_request_hash("a", "f"), compute_request_hash("f", "a"));
}

#[test]
fn validation_results() {
    let mut r = ValidationResult::valid();
    assert!(r.valid);
    r.add_warning(ValidationWarning::NoRolloutPolicy);
    assert!(r.valid);
    r.add_error(ValidationError::EmptyBundle);
    assert!(!r.valid);
    let mut ok = ValidationResult::valid();
    ok.merge(r.clone());
    assert!(!ok.valid);
    assert_eq!(ok.errors, vec![ValidationError::EmptyBundle]);
    assert_eq!(ok.warnings.len(), 1);
    let one = ValidationResult::with_error(ValidationError::InvalidScope("s".to_string()));
    assert!(!one.valid);
    assert_eq!(one.errors.len(), 1);
}

#[test]
fn defaults_of_policies_and_queries() {
    assert_eq!(RevocationPolicy::default(), RevocationPolicy::GracefulDrain { max_wait_seconds: 30 });
    assert_eq!(CrudRevocation::default(), CrudRevocation::Graceful { timeout_seconds: 30 });
    let q = RuleQuery::new().with_agent("a".to_string()).with_dtype("json".to_string());
    assert_eq!(q.agent_id, Some("a".to_string()));
    assert_eq!(q.flow_id, None);
    assert_eq!(q.dtype, Some("json".to_string()));
    let _v = BundleValidator::new().with_max_rules(10).with_max_priority(5).require_signatures(true);
}

#[test]
fn operation_handles() {
    let h = OperationHandle::new(RuleId::from_u128(2));
    assert!(h.operation_id().starts_with("op_00000000-0000-0000-0000-000000000002_"));
    assert_eq!(h.rule_id().as_u128(), 2);
}

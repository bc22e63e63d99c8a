use std::sync::Arc;
use tupl_dp::bridge::bridge::Bridge;
use tupl_dp::bridge::families::l1_input::{InputSanitizationRule, InputSchemaRule};
use tupl_dp::bridge::families::l3_modelio::ModelOutputEscalateRule;
use tupl_dp::bridge::families::l4_tool_gateway::{EnforcementMode, ToolParamConstraintRule};
use tupl_dp::bridge::families::l6_egress::OutputAuditRule;
use tupl_dp::bridge::families::lo_system::{NetworkEgressRule, SidecarSpawnRule};
use tupl_dp::bridge::rule_instance::RuleInstance;
use tupl_dp::bridge::types::RuleFamilyId;

fn schema(id: &str) -> Arc<RuleInstance> {
    Arc::new(RuleInstance::InputSchema(InputSchemaRule::new(id.to_string())))
}

fn sanitize(id: &str) -> Arc<RuleInstance> {
    Arc::new(RuleInstance::InputSanitize(InputSanitizationRule::new(id.to_string())))
}

#[test]
fn refused_batch_changes_nothing() {
    let mut b = Bridge::init();
    b.add_rule(sanitize("s1")).unwrap();
    let v0 = b.version();
    let r = b.add_rules_batch(vec![schema("n1"), sanitize("s1")]);
    assert_eq!(r, Err("Rule s1 already exists in table".to_string()));
    assert_eq!(b.version(), v0);
    assert_eq!(b.get_table(&RuleFamilyId::InputSchema).unwrap().rule_count(), 0);
    assert!(b.find_rule("n1").is_none());
    assert_eq!(b.add_rules_batch(vec![schema("n1"), sanitize("s2")]), Ok(()));
    assert_eq!(b.version(), v0 + 1);
    assert!(b.find_rule("n1").is_some());
    assert!(b.find_rule("s2").is_some());
    assert_eq!(b.stats().total_rules, 3);
}

#[test]
fn fresh_bridge_is_empty() {
    let b = Bridge::init();
    assert_eq!(b.stats().total_rules, 0);
    assert_eq!(b.version(), 0);
    assert_eq!(b.staged_version(), None);
}

#[test]
fn wildcard_domains_need_a_dot_boundary() {
    let r = NetworkEgressRule::new("n".to_string())
        .with_dest_domains(vec!["*.example.com".to_string(), "exact.org".to_string()]);
    assert!(r.matches_domain("example.com"));
    assert!(r.matches_domain("api.example.com"));
    assert!(!r.matches_domain("evilexample.com"));
    assert!(r.matches_domain("exact.org"));
    assert!(!r.matches_domain("sub.exact.org"));
    let any = NetworkEgressRule::new("a".to_string()).with_dest_domains(vec!["*".to_string()]);
    assert!(any.matches_domain("whatever.net"));
}

#[test]
fn image_version_patterns_need_the_colon() {
    let r = SidecarSpawnRule::new("s".to_string()).with_allowed_images(vec!["redis:*".to_string()]);
    assert!(r.is_image_allowed("redis:7"));
    assert!(r.is_image_allowed("redis:*"));
    assert!(!r.is_image_allowed("redisx:1"));
    assert!(!r.is_image_allowed("redis"));
    let any = SidecarSpawnRule::new("a".to_string()).with_allowed_images(vec!["*".to_string()]);
    assert!(any.is_image_allowed("nginx"));
}

#[test]
fn float_setting_families_are_stored() {
    let mut b = Bridge::init();
    let esc = ModelOutputEscalateRule::new("esc".to_string()).with_priority(7).for_agent("a1".to_string());
    assert_eq!(f32::from_bits(esc.confidence_threshold_bits), 0.5);
    assert_eq!(esc.escalate_target, "human-review");
    let tpc = ToolParamConstraintRule::new("tpc".to_string())
        .with_tool_id("db".to_string())
        .with_max_len(64)
        .with_enforcement_mode(EnforcementMode::Soft);
    assert_eq!(tpc.max_len, Some(64));
    assert!(tpc.min_value_bits.is_none());
    let audit = OutputAuditRule::new("aud".to_string());
    assert_eq!(f32::from_bits(audit.sampling_rate_bits), 1.0);
    assert_eq!(audit.audit_fields, vec!["rule_id", "agent_id", "timestamp", "action"]);
    b.add_rule(Arc::new(RuleInstance::ModelOutputEscalate(esc))).unwrap();
    b.add_rule(Arc::new(RuleInstance::ToolParamConstraint(tpc))).unwrap();
    b.add_rule(Arc::new(RuleInstance::OutputAudit(audit))).unwrap();
    assert_eq!(b.stats().total_rules, 3);
    let found = b.find_rule("esc").unwrap();
    assert_eq!(found.family_id(), RuleFamilyId::ModelOutputEscalate);
    assert_eq!(found.priority(), 7);
    assert!(!found.is_global());
    assert_eq!(b.find_rule("tpc").unwrap().family_id(), RuleFamilyId::ToolParamConstraint);
    assert_eq!(b.find_rule("aud").unwrap().family_id(), RuleFamilyId::OutputAudit);
}

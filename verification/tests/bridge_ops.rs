use std::sync::Arc;
use tupl_dp::bridge::bridge::Bridge;
use tupl_dp::bridge::enforcement::{
    endpoint_url, on_rule_decision, parse_layer, rules_for_layer, sanitize_endpoint,
    begin_enforcement, start_enforcement, EnforcementAction,
};
use tupl_dp::bridge::families::l1_input::{InputSanitizationRule, InputSchemaRule};
use tupl_dp::bridge::rule_instance::RuleInstance;
use tupl_dp::bridge::table::RuleFamilyTable;
use tupl_dp::bridge::types::{LayerId, RuleFamilyId};

fn schema(id: &str, prio: u32) -> Arc<RuleInstance> {
    Arc::new(RuleInstance::InputSchema(InputSchemaRule::new(id.to_string()).with_priority(prio)))
}

fn schema_for(id: &str, agent: &str, prio: u32) -> Arc<RuleInstance> {
    Arc::new(RuleInstance::InputSchema(
        InputSchemaRule::new(id.to_string()).with_priority(prio).for_agent(agent.to_string()),
    ))
}

fn sanitize(id: &str) -> Arc<RuleInstance> {
    Arc::new(RuleInstance::InputSanitize(InputSanitizationRule::new(id.to_string())))
}

fn ids(v: &[Arc<RuleInstance>]) -> Vec<String> {
    v.iter().map(|r| r.rule_id().to_string()).collect()
}

#[test]
fn table_add_find_remove() {
    let mut t = RuleFamilyTable::new(RuleFamilyId::InputSchema, LayerId::L1Input);
    assert!(t.is_empty());
    t.add_rule(schema("r1", 5)).unwrap();
    assert_eq!(t.find_rule("r1").map(|r| r.rule_id().to_string()), Some("r1".to_string()));
    assert_eq!(t.add_rule(schema("r1", 9)), Err("Rule r1 already exists in table".to_string()));
    let mismatch = t.add_rule(sanitize("s1")).unwrap_err();
    assert_eq!(
        mismatch,
        format!(
            "Rule family mismatch: expected {}, got {}",
            RuleFamilyId::InputSchema.family_id(),
            RuleFamilyId::InputSanitize.family_id()
        )
    );
    assert_eq!(t.rule_count(), 1);
    assert_eq!(t.remove_rule("r1"), Ok(true));
    assert!(t.find_rule("r1").is_none());
    assert_eq!(t.remove_rule("r1"), Ok(false));
}

#[test]
fn table_queries_by_priority_and_scope() {
    let mut t = RuleFamilyTable::new(RuleFamilyId::InputSchema, LayerId::L1Input);
    t.add_rules_batch(vec![schema("g-low", 1), schema_for("a-high", "agent-a", 50), schema_for("b", "agent-b", 99), schema("g-high", 20)]).unwrap();
    let for_a = t.query_by_agent("agent-a");
    assert_eq!(ids(&for_a), vec!["a-high", "g-high", "g-low"]);
    let globals = t.query_globals();
    assert_eq!(ids(&globals), vec!["g-high", "g-low"]);
    assert_eq!(t.query_all().len(), 4);
    let m = t.metadata();
    assert_eq!(m.rule_count, 4);
    assert_eq!(m.global_count, 2);
    assert_eq!(m.scoped_count, 2);
}

#[test]
fn table_stable_order_for_equal_priorities() {
    let mut t = RuleFamilyTable::new(RuleFamilyId::InputSchema, LayerId::L1Input);
    t.add_rule(schema("first", 7)).unwrap();
    t.add_rule(schema("second", 7)).unwrap();
    t.add_rule(schema("third", 7)).unwrap();
    assert_eq!(ids(&t.query_globals()), vec!["first", "second", "third"]);
}

#[test]
fn bridge_routes_rules_to_family_tables() {
    let mut b = Bridge::init();
    assert_eq!(b.table_count(), 14);
    let v0 = b.version();
    b.add_rule(schema("r1", 1)).unwrap();
    b.add_rule(sanitize("s1")).unwrap();
    assert_eq!(b.version(), v0 + 2);
    assert!(b.find_rule("s1").is_some());
    assert_eq!(b.get_table(&RuleFamilyId::InputSchema).unwrap().rule_count(), 1);
    let stats = b.stats();
    assert_eq!(stats.total_rules, 2);
    assert_eq!(stats.tables_with_rules, 2);
    assert_eq!(b.remove_rule(&RuleFamilyId::InputSanitize, "s1"), Ok(true));
    assert!(b.find_rule("s1").is_none());
    let layer = rules_for_layer(&b, "L1").unwrap();
    assert_eq!(ids(&layer), vec!["r1"]);
    assert_eq!(rules_for_layer(&b, "L9").err(), Some("Unknown layer: L9".to_string()));
}

#[test]
fn staged_versions() {
    let mut b = Bridge::init();
    assert!(b.promote_staged().is_err());
    b.set_staged_version(42);
    assert_eq!(b.staged_version(), Some(42));
    b.promote_staged().unwrap();
    assert_eq!(b.version(), 42);
    assert_eq!(b.staged_version(), None);
}

#[test]
fn enforcement_short_circuits() {
    let (s, a) = start_enforcement(0);
    assert_eq!(a, EnforcementAction::Decide { decision: 0, rules_evaluated: 0 });
    assert_eq!(s.evaluated, 0);
    let (s, a) = start_enforcement(3);
    assert_eq!(a, EnforcementAction::EvaluateRule(0));
    let (s, a) = on_rule_decision(s, 1);
    assert_eq!(a, EnforcementAction::EvaluateRule(1));
    let (_s, a) = on_rule_decision(s, 0);
    assert_eq!(a, EnforcementAction::Decide { decision: 0, rules_evaluated: 2 });
    let (s, _) = start_enforcement(1);
    let (_, a) = on_rule_decision(s, 1);
    assert_eq!(a, EnforcementAction::Decide { decision: 1, rules_evaluated: 1 });
}

#[test]
fn unencodable_intent_is_blocked() {
    let (s, a) = begin_enforcement(false, 5);
    assert_eq!(a, EnforcementAction::Decide { decision: 0, rules_evaluated: 0 });
    assert_eq!(s.total_rules, 0);
    let (s, a) = begin_enforcement(true, 5);
    assert_eq!(a, EnforcementAction::EvaluateRule(0));
    assert_eq!(s.total_rules, 5);
    let (_, a) = begin_enforcement(true, 0);
    assert_eq!(a, EnforcementAction::Decide { decision: 0, rules_evaluated: 0 });
}

#[test]
fn layers_and_endpoints() {
    assert_eq!(parse_layer("L4"), Ok(LayerId::L4ToolGateway));
    assert_eq!(parse_layer("l4"), Err("Unknown layer: l4".to_string()));
    assert_eq!(sanitize_endpoint("http://mp:8000//"), "http://mp:8000");
    assert_eq!(endpoint_url("http://mp", "//encode/x"), "http://mp/encode/x");
}

use std::time::Duration;
use tupl_dp::engine::match_clause::{
    clause_max_tier, clause_outcome, FastMatch, FastMatchBuilder, HeaderFlags, MatchResult, MatchTier,
    RegexMatch, WasmHookRef,
};
use tupl_dp::engine::rule_metadata::{AgentId, FlowId};

fn agent(s: &str) -> AgentId {
    AgentId::new(s.to_string())
}

#[test]
fn header_flags_set_clear_has() {
    let mut f = HeaderFlags::empty();
    assert!(f.is_empty());
    f.set(HeaderFlags::ENCRYPTED);
    f.set(HeaderFlags::CONTAINS_PII);
    assert!(f.has(HeaderFlags::ENCRYPTED));
    assert!(f.has(HeaderFlags::CONTAINS_PII));
    assert!(!f.has(HeaderFlags::CACHED));
    assert_eq!(f.bits(), 17);
    f.clear(HeaderFlags::ENCRYPTED);
    assert!(!f.has(HeaderFlags::ENCRYPTED));
    assert_eq!(f.bits(), 16);
}

#[test]
fn header_flags_contains_and_intersects() {
    let f = HeaderFlags::from_bits(0b1011);
    assert!(f.contains(HeaderFlags::from_bits(0b0011)));
    assert!(!f.contains(HeaderFlags::from_bits(0b0100)));
    assert!(f.intersects(HeaderFlags::from_bits(0b1100)));
    assert!(!f.intersects(HeaderFlags::from_bits(0b0100)));
    assert!(f.contains(HeaderFlags::empty()));
    assert!(HeaderFlags::all().contains(f));
    assert_eq!(HeaderFlags::all().bits(), u64::MAX);
    assert_eq!(HeaderFlags::default().bits(), 0);
}

#[test]
fn fast_match_new_matches_everything() {
    let m = FastMatch::new();
    assert!(m.matches_all());
    assert!(m.evaluate_headers(&agent("a"), None, None, "text/plain", HeaderFlags::all()));
    assert!(m.evaluate_headers(&agent("b"), Some(&agent("c")), Some(&FlowId::new("f".to_string())), "", HeaderFlags::empty()));
}

#[test]
fn fast_match_none_matches_nothing() {
    let m = FastMatch::match_none();
    assert!(!m.matches_all());
    assert!(!m.evaluate_headers(&agent("a"), None, None, "text/plain", HeaderFlags::all()));
    assert!(!m.evaluate_headers(&agent("a"), None, None, "text/plain", HeaderFlags::empty()));
}

#[test]
fn fast_match_builder_restrictions() {
    let m = FastMatchBuilder::new()
        .add_source_agent(agent("agent-1"))
        .add_source_agent(agent("agent-1"))
        .add_dest_agent(agent("db"))
        .add_payload_type("application/json".to_string())
        .require_flags(HeaderFlags::from_bits(HeaderFlags::AUTHENTICATED))
        .forbid_flags(HeaderFlags::from_bits(HeaderFlags::CONTAINS_PII))
        .build();
    assert_eq!(m.source_agents.len(), 1);
    let auth = HeaderFlags::from_bits(HeaderFlags::AUTHENTICATED);
    let json = "application/json";
    assert!(m.evaluate_headers(&agent("agent-1"), Some(&agent("db")), None, json, auth));
    // wrong source
    assert!(!m.evaluate_headers(&agent("agent-2"), Some(&agent("db")), None, json, auth));
    // destination missing
    assert!(!m.evaluate_headers(&agent("agent-1"), None, None, json, auth));
    // wrong payload type
    assert!(!m.evaluate_headers(&agent("agent-1"), Some(&agent("db")), None, "text/plain", auth));
    // required flag missing
    assert!(!m.evaluate_headers(&agent("agent-1"), Some(&agent("db")), None, json, HeaderFlags::empty()));
    // forbidden flag present
    let both = HeaderFlags::from_bits(HeaderFlags::AUTHENTICATED | HeaderFlags::CONTAINS_PII);
    assert!(!m.evaluate_headers(&agent("agent-1"), Some(&agent("db")), None, json, both));
}

#[test]
fn fast_match_flow_and_bulk_sources() {
    let m = FastMatchBuilder::new()
        .source_agents(vec![agent("x"), agent("y"), agent("x")])
        .add_flow_id(FlowId::new("checkout".to_string()))
        .build();
    assert_eq!(m.source_agents.len(), 2);
    let checkout = FlowId::new("checkout".to_string());
    assert!(m.evaluate_headers(&agent("y"), None, Some(&checkout), "", HeaderFlags::empty()));
    assert!(!m.evaluate_headers(&agent("y"), None, None, "", HeaderFlags::empty()));
    assert!(!m.evaluate_headers(&agent("z"), None, Some(&checkout), "", HeaderFlags::empty()));
}

#[test]
fn tier_outcomes() {
    assert_eq!(clause_outcome(false, true, None), MatchResult::no_match(MatchTier::FastMatch));
    assert_eq!(clause_outcome(true, false, Some(true)), MatchResult::no_match(MatchTier::MatchExpression));
    assert_eq!(clause_outcome(true, true, Some(false)), MatchResult::no_match(MatchTier::WasmHook));
    assert_eq!(clause_outcome(true, true, None), MatchResult::matched());
    assert_eq!(clause_outcome(true, true, Some(true)), MatchResult::matched());
    assert!(MatchResult::matched().is_match);
    assert_eq!(clause_outcome(true, true, None).tier, MatchTier::Complete);
    assert_eq!(MatchResult::matched().tier, MatchTier::Complete);
    assert_eq!(clause_max_tier(true, true, true), MatchTier::WasmHook);
    assert_eq!(clause_max_tier(false, false, true), MatchTier::MatchExpression);
    assert_eq!(clause_max_tier(false, true, false), MatchTier::FastMatch);
    assert_eq!(clause_max_tier(false, true, true), MatchTier::NoTier);
}

#[test]
fn regex_match_text() {
    let full = RegexMatch { field_path: "f".to_string(), pattern: "abc".to_string(), full_match: true };
    assert!(full.matches_text("abc"));
    assert!(!full.matches_text("xabcx"));
    let part = RegexMatch { full_match: false, ..full.clone() };
    assert!(part.matches_text("xabcx"));
    assert!(!part.matches_text("ab"));
}

#[test]
fn wasm_hook_defaults() {
    let h = WasmHookRef::new("hook".to_string(), "sha256:00".to_string());
    assert_eq!(h.max_exec_time, Duration::from_millis(50));
    assert_eq!(h.memory_limit_bytes, 10 * 1024 * 1024);
    assert_eq!(h.cpu_shares, 100);
    let c = h.clone();
    assert_eq!(c.hook_id, "hook");
}

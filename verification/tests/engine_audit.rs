use tupl_dp::engine::audit_record::{
    AuditContext, AuditLogLevel, AuditRecord, AuditTrail, CompactDecisionRecord, DecisionOutcome,
    EvaluationTimestamps, ExecutionStatistics, PayloadRef,
};

fn stamps(received: u128, start: u128, end: u128) -> EvaluationTimestamps {
    EvaluationTimestamps {
        received_at: received,
        eval_started_at: start,
        eval_completed_at: end,
        decision_at: end,
        audit_created_at: end,
    }
}

#[test]
fn compact_hash_known_value() {
    let r = CompactDecisionRecord {
        seq: 7,
        rule_id: "rule-1".to_string(),
        rule_version: 2,
        decision: "ALLOW".to_string(),
        timestamp_ms: 1000,
        decision_hash: String::new(),
        payload_refs: vec![PayloadRef::new("shm0".to_string(), 16, 64)],
    };
    assert_eq!(r.compute_hash(), "c583f65c48588438068bc55274f96763692ee9f25409d0adf92137e6c60f5256");
    assert!(!r.verify_hash());
}

#[test]
fn compact_record_verifies_until_tampered() {
    let mut r = CompactDecisionRecord::new(3, "rule-x".to_string(), 1, "DENY: no".to_string(), vec![]);
    assert_eq!(r.decision_hash.len(), 64);
    assert!(r.verify_hash());
    r.decision = "ALLOW".to_string();
    assert!(!r.verify_hash());
}

#[test]
fn provenance_hash_known_value() {
    let rec = AuditRecord::builder(1, "r1".to_string(), 3)
        .outcome(DecisionOutcome::Deny { reason: "blocked".to_string(), code: None })
        .timestamps(stamps(1_700_000_000_123_000_456, 0, 0))
        .build()
        .unwrap();
    assert_eq!(rec.provenance_hash, "124cd8aaa73efc245a7673cbba0af4dd2a4e325d7e693e865e886ceba99d3a56");
    assert!(rec.verify_provenance());
    let compact = rec.to_compact();
    assert_eq!(compact.decision, "DENY: blocked");
    assert_eq!(compact.timestamp_ms, 1_700_000_000_123);
    assert_eq!(compact.decision_hash, rec.provenance_hash);
}

#[test]
fn builder_requires_outcome() {
    let r = AuditRecord::builder(1, "r".to_string(), 1).build();
    assert_eq!(r.err(), Some("outcome is required".to_string()));
}

#[test]
fn outcome_summaries() {
    assert_eq!(DecisionOutcome::Allow { metadata: None }.summary(), "ALLOW");
    assert_eq!(DecisionOutcome::Redact { redacted_fields: vec!["a".to_string(), "b".to_string()] }.summary(), "REDACT: 2 fields");
    assert_eq!(
        DecisionOutcome::ConstraintViolation { violation_type: "mem".to_string(), fail_open: true }.summary(),
        "VIOLATION: mem (fail_open=true)"
    );
    assert_eq!(DecisionOutcome::Error { message: "m".to_string(), code: "E1".to_string() }.summary(), "ERROR: E1");
    assert_eq!(DecisionOutcome::Skip.summary(), "SKIP");
    assert!(DecisionOutcome::ConstraintViolation { violation_type: "x".to_string(), fail_open: false }.is_blocking());
    assert!(!DecisionOutcome::ConstraintViolation { violation_type: "x".to_string(), fail_open: true }.is_blocking());
    assert!(DecisionOutcome::Route { destination: "d".to_string() }.is_modification());
}

#[test]
fn timestamps_arithmetic() {
    let t = stamps(5_000_000, 1_000_000, 3_500_999);
    assert_eq!(t.total_eval_time_us(), 2500);
    assert_eq!(t.total_processing_time_us(), 0);
    assert_eq!(t.received_at_millis(), 5);
    let t2 = stamps(1_000_000, 1_000_000, 4_000_000);
    assert_eq!(t2.total_processing_time_us(), 3000);
}

#[test]
fn record_summary_and_metadata() {
    let mut rec = AuditRecord::builder(9, "rule-9".to_string(), 4)
        .outcome(DecisionOutcome::Allow { metadata: None })
        .timestamps(stamps(0, 1_000, 43_000))
        .build()
        .unwrap();
    assert_eq!(rec.summary(), "seq=9 rule=rule-9 v4 outcome=ALLOW time=42μs");
    rec.add_metadata("k".to_string(), "1".to_string());
    rec.add_metadata("j".to_string(), "2".to_string());
    rec.add_metadata("k".to_string(), "3".to_string());
    assert_eq!(rec.metadata.len(), 2);
    assert!(rec.metadata.contains(&("k".to_string(), "3".to_string())));
    rec.set_explanation("why".to_string());
    assert_eq!(rec.explanation, Some("why".to_string()));
}

#[test]
fn log_levels() {
    assert!(AuditLogLevel::Critical.should_log(AuditLogLevel::Low));
    assert!(!AuditLogLevel::Trace.should_log(AuditLogLevel::Medium));
    assert!(AuditLogLevel::Medium.should_log(AuditLogLevel::Medium));
}

#[test]
fn trail_keeps_newest_records() {
    let mut trail = AuditTrail::new(2);
    for i in 0..5u64 {
        let seq = trail.next_seq();
        assert_eq!(seq, i);
        let rec = AuditRecord::builder(seq, format!("r{}", i % 2), 1)
            .outcome(DecisionOutcome::Skip)
            .timestamps(stamps(i as u128 * 10, 0, 0))
            .build()
            .unwrap();
        trail.add_record(rec);
        assert!(trail.get_records().len() <= 2);
    }
    let kept: Vec<u64> = trail.get_records().iter().map(|r| r.seq).collect();
    assert_eq!(kept, vec![3, 4]);
    assert_eq!(trail.get_records_by_rule("r0").len(), 1);
    assert_eq!(trail.get_records_in_range(35, 40).len(), 1);
    assert_eq!(trail.get_records_in_range(0, 100).len(), 2);
    trail.clear();
    assert_eq!(trail.get_records().len(), 0);
    assert_eq!(trail.next_seq(), 5);
}

#[test]
fn trail_with_no_capacity_keeps_nothing() {
    let mut trail = AuditTrail::new(0);
    trail.add_record(AuditRecord::new(0, "r".to_string(), 1, DecisionOutcome::Skip));
    assert_eq!(trail.get_records().len(), 0);
}

#[test]
fn context_builder() {
    let c = AuditContext::builder()
        .source_agent("a".to_string())
        .add_violation("v1".to_string())
        .exec_stats(ExecutionStatistics::new())
        .build();
    assert_eq!(c.source_agent, Some("a".to_string()));
    assert_eq!(c.constraint_violations, vec!["v1".to_string()]);
    assert!(c.dest_agent.is_none());
    let fresh = AuditRecord::new(1, "r".to_string(), 1, DecisionOutcome::Skip);
    assert!(fresh.verify_provenance());
    assert_eq!(fresh.log_level, AuditLogLevel::Low);
}

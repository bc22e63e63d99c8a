use std::time::Duration;
use tupl_dp::engine::action_clause::{
    ActionClause, ActionResult, ActionType, AllowParams, AllowedSideEffect, CallbackParams, DenyParams,
    LogLevel, LogParams, RedactParams, RedactionStrategy, RouteToParams, SidecarSpec,
    SpawnSidecarParams,
};

fn log_action() -> ActionType {
    ActionType::Log(LogParams {
        level: LogLevel::Info,
        message: "seen".to_string(),
        include_payload: false,
        structured_data: None,
    })
}

fn callback() -> ActionType {
    ActionType::Callback(CallbackParams {
        endpoint: "https://cp".to_string(),
        event_type: "evt".to_string(),
        include_payload: false,
        async_delivery: true,
    })
}

#[test]
fn action_names_and_kinds() {
    let deny = ActionType::Deny(DenyParams::default());
    assert_eq!(deny.name(), "DENY");
    assert!(deny.is_blocking());
    assert!(!deny.requires_authorization());
    assert_eq!(callback().name(), "CALLBACK");
    assert!(callback().requires_authorization());
    let redact = ActionType::Redact(RedactParams {
        fields: vec!["ssn".to_string()],
        strategy: RedactionStrategy::Mask,
        redaction_template: None,
    });
    assert!(redact.modifies_payload());
    assert_eq!(redact.required_side_effects(), vec![AllowedSideEffect::PayloadModification, AllowedSideEffect::Logging]);
    let sidecar = ActionType::SpawnSidecar(SpawnSidecarParams {
        sidecar_spec: SidecarSpec {
            sidecar_type: "ml".to_string(),
            image: "img".to_string(),
            cpu_shares: 1,
            memory_limit_mb: 10,
            timeout: Duration::from_secs(1),
        },
        block_on_completion: false,
        pass_payload: false,
    });
    assert_eq!(sidecar.name(), "SPAWN_SIDECAR");
    assert_eq!(sidecar.required_side_effects().len(), 3);
}

#[test]
fn deny_params_default() {
    let d = DenyParams::default();
    assert_eq!(d.reason, "Request denied by policy");
    assert_eq!(d.error_code, 403);
    assert_eq!(d.http_status, Some(403));
    let a = AllowParams::default();
    assert!(!a.log_decision);
    assert_eq!(a.reason, None);
}

#[test]
fn new_clause_is_valid() {
    let c = ActionClause::new(ActionType::Deny(DenyParams::default()));
    assert_eq!(c.max_execution_time, Duration::from_millis(100));
    assert!(c.rollback_on_failure);
    assert_eq!(c.allowed_side_effects, vec![AllowedSideEffect::Logging, AllowedSideEffect::Metrics]);
    assert_eq!(c.validate(), Ok(()));
    assert_eq!(ActionClause::new(callback()).validate(), Ok(()));
}

#[test]
fn validate_primary_missing_effect() {
    let mut c = ActionClause::new(callback());
    c.allowed_side_effects = vec![AllowedSideEffect::Logging];
    assert_eq!(
        c.validate(),
        Err("Primary action requires NetworkCall side effect but it's not allowed".to_string())
    );
}

#[test]
fn validate_secondary_missing_effect() {
    let mut c = ActionClause::new(log_action());
    c.secondary_actions.push(callback());
    assert_eq!(
        c.validate(),
        Err("Secondary action CALLBACK requires NetworkCall side effect but it's not allowed".to_string())
    );
}

#[test]
fn validate_time_limit() {
    let mut c = ActionClause::new(log_action());
    c.max_execution_time = Duration::from_secs(31);
    assert_eq!(c.validate(), Err("max_execution_time exceeds 30 seconds".to_string()));
    c.max_execution_time = Duration::from_secs(30);
    assert_eq!(c.validate(), Ok(()));
}

#[test]
fn validate_deny_with_secondary() {
    let r = ActionClause::builder(ActionType::Deny(DenyParams::default()))
        .add_secondary(log_action())
        .build();
    assert_eq!(r.err(), Some("DENY action cannot have secondary actions".to_string()));
}

#[test]
fn builder_adds_effects_of_secondaries() {
    let c = ActionClause::builder(log_action())
        .add_secondary(callback())
        .allow_side_effect(AllowedSideEffect::Metrics)
        .max_execution_time(Duration::from_millis(5))
        .rollback_on_failure(false)
        .build()
        .unwrap();
    assert!(c.allowed_side_effects.contains(&AllowedSideEffect::NetworkCall));
    assert!(c.allowed_side_effects.contains(&AllowedSideEffect::Metrics));
    assert!(!c.rollback_on_failure);
    assert_eq!(c.all_actions().len(), 2);
    assert!(!c.requires_payload());
    let route = ActionType::RouteTo(RouteToParams { dest_agent: None, queue_name: Some("q".to_string()), preserve_headers: true });
    let c2 = ActionClause::builder(log_action()).secondary_actions(vec![route]).build().unwrap();
    assert!(c2.allowed_side_effects.contains(&AllowedSideEffect::Routing));
}

#[test]
fn action_results() {
    let failed_final = ActionResult::Failed { error: "e".to_string(), retryable: false };
    let failed_retry = ActionResult::Failed { error: "e".to_string(), retryable: true };
    let denied = ActionResult::Denied { reason: "r".to_string(), error_code: "403".to_string() };
    let ok = ActionResult::Success { message: "m".to_string(), payload_modified: false, metadata_modified: false };
    let timeout = ActionResult::Timeout { elapsed: Duration::from_millis(3) };
    assert!(failed_final.should_block() && failed_final.is_failed());
    assert!(!failed_retry.should_block());
    assert!(denied.should_block() && denied.is_denied());
    assert!(ok.is_success() && !ok.should_block());
    assert!(!timeout.should_block());
}

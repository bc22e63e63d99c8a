//! Egress layer family: PII detection.
use vstd::prelude::*;
use crate::bridge::types::{now_ms, RuleAction, RuleScope};
use crate::text::{owned, strs_view};
use crate::text::{list_contains_ignore_ascii_case, some_eq_ignore_ascii_case};

verus! {

/// Detects and redacts or denies PII before a response leaves the system.
#[derive(Debug, Clone)]
pub struct OutputPIIRule {
    /// Unique rule identifier
    pub rule_id: String,
    /// Priority (higher = evaluated first)
    pub priority: u32,
    /// Which agents the rule applies to
    pub scope: RuleScope,
    /// PII detector to run
    pub semantic_hook: String,
    /// Action on detection
    pub action: RuleAction,
    /// Replacement text for redactions
    pub redact_template: String,
    /// PII types to detect (empty = all)
    pub pii_types: Vec<String>,
    /// Creation time in milliseconds since the epoch
    pub created_at: u64,
    /// Optional description
    pub description: Option<String>,
    /// Whether the rule is enabled
    pub enabled: bool,
}

impl OutputPIIRule {
    /// A new rule with default settings and a global scope.
    pub fn new(rule_id: String) -> (r: Self)
        ensures
            r.rule_id == rule_id,
            r.priority == 0,
            r.scope.is_global,
            r.scope.agent_ids@.len() == 0,
            r.scope.tags@.len() == 0,
            r.semantic_hook@ == "pii-detector-v1"@,
            r.action == RuleAction::Redact,
            r.redact_template@ == "[REDACTED]"@,
            strs_view(r.pii_types@) =~= seq!["email"@, "ssn"@, "phone"@, "credit_card"@],
            r.description is None,
            r.enabled,
    {
        let mut pii_types = Vec::new();
        pii_types.push(owned("email"));
        pii_types.push(owned("ssn"));
        pii_types.push(owned("phone"));
        pii_types.push(owned("credit_card"));
        OutputPIIRule {
            rule_id,
            priority: 0,
            scope: RuleScope::global(),
            semantic_hook: owned("pii-detector-v1"),
            action: RuleAction::Redact,
            redact_template: owned("[REDACTED]"),
            pii_types: pii_types,
            created_at: now_ms(),
            description: None,
            enabled: true,
        }
    }

    /// Sets the priority.
    pub fn with_priority(self, priority: u32) -> (r: Self)
        ensures
            r == (OutputPIIRule { priority: priority, ..self }),
    {
        OutputPIIRule { priority: priority, ..self }
    }

    /// Sets the scope.
    pub fn with_scope(self, scope: RuleScope) -> (r: Self)
        ensures
            r == (OutputPIIRule { scope: scope, ..self }),
    {
        OutputPIIRule { scope: scope, ..self }
    }

    /// Scopes the rule to one agent.
    pub fn for_agent(self, agent_id: String) -> (r: Self)
        ensures
            r == (OutputPIIRule { scope: r.scope, ..self }),
            !r.scope.is_global,
            r.scope.agent_ids@ == seq![agent_id],
            r.scope.tags@.len() == 0,
    {
        OutputPIIRule { scope: RuleScope::for_agent(agent_id), ..self }
    }

    /// Sets the detector.
    pub fn with_semantic_hook(self, hook: String) -> (r: Self)
        ensures
            r == (OutputPIIRule { semantic_hook: hook, ..self }),
    {
        OutputPIIRule { semantic_hook: hook, ..self }
    }

    /// Sets the action.
    pub fn with_action(self, action: RuleAction) -> (r: Self)
        ensures
            r == (OutputPIIRule { action: action, ..self }),
    {
        OutputPIIRule { action: action, ..self }
    }

    /// Sets the redaction text.
    pub fn with_redact_template(self, template: String) -> (r: Self)
        ensures
            r == (OutputPIIRule { redact_template: template, ..self }),
    {
        OutputPIIRule { redact_template: template, ..self }
    }

    /// Sets the PII types.
    pub fn with_pii_types(self, types: Vec<String>) -> (r: Self)
        ensures
            r == (OutputPIIRule { pii_types: types, ..self }),
    {
        OutputPIIRule { pii_types: types, ..self }
    }

    /// Sets the description.
    pub fn with_description(self, desc: String) -> (r: Self)
        ensures
            r == (OutputPIIRule { description: Some(desc), ..self }),
    {
        OutputPIIRule { description: Some(desc), ..self }
    }

    /// Whether a PII type is detected: the list is empty or names it up to ASCII case.
    pub fn should_detect_type(&self, pii_type: &str) -> (r: bool)
        ensures
            r == (self.pii_types@.len() == 0 || some_eq_ignore_ascii_case(strs_view(self.pii_types@), pii_type@)),
    {
        self.pii_types.len() == 0 || list_contains_ignore_ascii_case(&self.pii_types, pii_type)
    }

}

/// Emits decision records for user-facing outputs.
#[derive(Debug, Clone)]
pub struct OutputAuditRule {
    /// Unique rule identifier
    pub rule_id: String,
    /// Priority (higher = evaluated first)
    pub priority: u32,
    /// Which agents the rule applies to
    pub scope: RuleScope,
    /// Whether decision events are emitted
    pub emit_decision_event: bool,
    /// Sampling rate (0.0 - 1.0), as the bits of an IEEE 754 single-precision number
    pub sampling_rate_bits: u32,
    /// The fields each record holds
    pub audit_fields: Vec<String>,
    /// Where records go
    pub audit_destination: Option<String>,
    /// Creation time in milliseconds since the epoch
    pub created_at: u64,
    /// Optional description
    pub description: Option<String>,
    /// Whether the rule is enabled
    pub enabled: bool,
}

impl OutputAuditRule {
    /// A new rule with a global scope that records every decision with its rule, agent,
    /// time and action.
    pub fn new(rule_id: String) -> (r: Self)
        ensures
            r.rule_id == rule_id,
            r.priority == 0,
            r.scope.is_global,
            r.scope.agent_ids@.len() == 0,
            r.scope.tags@.len() == 0,
            r.emit_decision_event,
            r.sampling_rate_bits == 0x3F80_0000u32,
            strs_view(r.audit_fields@) == seq!["rule_id"@, "agent_id"@, "timestamp"@, "action"@],
            r.audit_destination is None,
            r.description is None,
            r.enabled,
    {
        let mut audit_fields: Vec<String> = Vec::new();
        audit_fields.push(owned("rule_id"));
        audit_fields.push(owned("agent_id"));
        audit_fields.push(owned("timestamp"));
        audit_fields.push(owned("action"));
        proof {
            assert(strs_view(audit_fields@) =~= seq!["rule_id"@, "agent_id"@, "timestamp"@, "action"@]);
        }
        OutputAuditRule {
            rule_id,
            priority: 0,
            scope: RuleScope::global(),
            emit_decision_event: true,
            sampling_rate_bits: 0x3F80_0000u32,
            audit_fields,
            audit_destination: None,
            created_at: now_ms(),
            description: None,
            enabled: true,
        }
    }

    /// Sets the priority.
    pub fn with_priority(self, priority: u32) -> (r: Self)
        ensures
            r == (OutputAuditRule { priority: priority, ..self }),
    {
        OutputAuditRule { priority: priority, ..self }
    }

    /// Sets the scope.
    pub fn with_scope(self, scope: RuleScope) -> (r: Self)
        ensures
            r == (OutputAuditRule { scope: scope, ..self }),
    {
        OutputAuditRule { scope: scope, ..self }
    }

    /// Scopes the rule to one agent.
    pub fn for_agent(self, agent_id: String) -> (r: Self)
        ensures
            r == (OutputAuditRule { scope: r.scope, ..self }),
            !r.scope.is_global,
            r.scope.agent_ids@ == seq![agent_id],
            r.scope.tags@.len() == 0,
    {
        OutputAuditRule { scope: RuleScope::for_agent(agent_id), ..self }
    }

    /// Sets whether decision events are emitted.
    pub fn with_emit_decision_event(self, emit: bool) -> (r: Self)
        ensures
            r == (OutputAuditRule { emit_decision_event: emit, ..self }),
    {
        OutputAuditRule { emit_decision_event: emit, ..self }
    }

    /// Sets the fields each record holds.
    pub fn with_audit_fields(self, fields: Vec<String>) -> (r: Self)
        ensures
            r == (OutputAuditRule { audit_fields: fields, ..self }),
    {
        OutputAuditRule { audit_fields: fields, ..self }
    }

    /// Sets where records go.
    pub fn with_audit_destination(self, dest: String) -> (r: Self)
        ensures
            r == (OutputAuditRule { audit_destination: Some(dest), ..self }),
    {
        OutputAuditRule { audit_destination: Some(dest), ..self }
    }

    /// Sets the description.
    pub fn with_description(self, desc: String) -> (r: Self)
        ensures
            r == (OutputAuditRule { description: Some(desc), ..self }),
    {
        OutputAuditRule { description: Some(desc), ..self }
    }
}

} // verus!

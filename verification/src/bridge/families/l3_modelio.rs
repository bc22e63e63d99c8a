//! Model I/O layer family: output scanning.
use vstd::prelude::*;
use crate::bridge::types::{now_ms, RuleAction, RuleScope};
use crate::text::{owned, strs_view};

verus! {

/// Scans model output for PII, jailbreaks or sensitive content.
#[derive(Debug, Clone)]
pub struct ModelOutputScanRule {
    /// Unique rule identifier
    pub rule_id: String,
    /// Priority (higher = evaluated first)
    pub priority: u32,
    /// Which agents the rule applies to
    pub scope: RuleScope,
    /// Semantic detector to run
    pub semantic_hook: String,
    /// Time budget of the detector in milliseconds
    pub max_exec_ms: u32,
    /// Action on detection
    pub action: RuleAction,
    /// Replacement text for redactions
    pub redact_template: Option<String>,
    /// Where escalations go
    pub escalate_target: Option<String>,
    /// Creation time in milliseconds since the epoch
    pub created_at: u64,
    /// Optional description
    pub description: Option<String>,
    /// Whether the rule is enabled
    pub enabled: bool,
}

impl ModelOutputScanRule {
    /// A new rule with default settings and a global scope.
    pub fn new(rule_id: String) -> (r: Self)
        ensures
            r.rule_id == rule_id,
            r.priority == 0,
            r.scope.is_global,
            r.scope.agent_ids@.len() == 0,
            r.scope.tags@.len() == 0,
            r.semantic_hook@.len() == 0,
            r.max_exec_ms == 30,
            r.action == RuleAction::Redact,
            r.redact_template is Some && r.redact_template->0@ == "[REDACTED]"@,
            r.escalate_target is None,
            r.description is None,
            r.enabled,
    {
        ModelOutputScanRule {
            rule_id,
            priority: 0,
            scope: RuleScope::global(),
            semantic_hook: String::new(),
            max_exec_ms: 30,
            action: RuleAction::Redact,
            redact_template: Some(owned("[REDACTED]")),
            escalate_target: None,
            created_at: now_ms(),
            description: None,
            enabled: true,
        }
    }

    /// Sets the priority.
    pub fn with_priority(self, priority: u32) -> (r: Self)
        ensures
            r == (ModelOutputScanRule { priority: priority, ..self }),
    {
        ModelOutputScanRule { priority: priority, ..self }
    }

    /// Sets the scope.
    pub fn with_scope(self, scope: RuleScope) -> (r: Self)
        ensures
            r == (ModelOutputScanRule { scope: scope, ..self }),
    {
        ModelOutputScanRule { scope: scope, ..self }
    }

    /// Scopes the rule to one agent.
    pub fn for_agent(self, agent_id: String) -> (r: Self)
        ensures
            r == (ModelOutputScanRule { scope: r.scope, ..self }),
            !r.scope.is_global,
            r.scope.agent_ids@ == seq![agent_id],
            r.scope.tags@.len() == 0,
    {
        ModelOutputScanRule { scope: RuleScope::for_agent(agent_id), ..self }
    }

    /// Sets the detector.
    pub fn with_semantic_hook(self, hook: String) -> (r: Self)
        ensures
            r == (ModelOutputScanRule { semantic_hook: hook, ..self }),
    {
        ModelOutputScanRule { semantic_hook: hook, ..self }
    }

    /// Sets the time budget.
    pub fn with_max_exec_ms(self, ms: u32) -> (r: Self)
        ensures
            r == (ModelOutputScanRule { max_exec_ms: ms, ..self }),
    {
        ModelOutputScanRule { max_exec_ms: ms, ..self }
    }

    /// Sets the action.
    pub fn with_action(self, action: RuleAction) -> (r: Self)
        ensures
            r == (ModelOutputScanRule { action: action, ..self }),
    {
        ModelOutputScanRule { action: action, ..self }
    }

    /// Sets the redaction text.
    pub fn with_redact_template(self, template: String) -> (r: Self)
        ensures
            r == (ModelOutputScanRule { redact_template: Some(template), ..self }),
    {
        ModelOutputScanRule { redact_template: Some(template), ..self }
    }

    /// Sets the escalation target.
    pub fn with_escalate_target(self, target: String) -> (r: Self)
        ensures
            r == (ModelOutputScanRule { escalate_target: Some(target), ..self }),
    {
        ModelOutputScanRule { escalate_target: Some(target), ..self }
    }

    /// Sets the description.
    pub fn with_description(self, desc: String) -> (r: Self)
        ensures
            r == (ModelOutputScanRule { description: Some(desc), ..self }),
    {
        ModelOutputScanRule { description: Some(desc), ..self }
    }

}

/// Diverts low-confidence model output to human review.
#[derive(Debug, Clone)]
pub struct ModelOutputEscalateRule {
    /// Unique rule identifier
    pub rule_id: String,
    /// Priority (higher = evaluated first)
    pub priority: u32,
    /// Which agents the rule applies to
    pub scope: RuleScope,
    /// Confidence threshold (0.0 - 1.0), as the bits of an IEEE 754 single-precision number
    pub confidence_threshold_bits: u32,
    /// Where escalations go
    pub escalate_target: String,
    /// Module assessing confidence
    pub semantic_hook: Option<String>,
    /// Creation time in milliseconds since the epoch
    pub created_at: u64,
    /// Optional description
    pub description: Option<String>,
    /// Whether the rule is enabled
    pub enabled: bool,
}

impl ModelOutputEscalateRule {
    /// A new rule with a global scope that escalates below a confidence of one half to
    /// human review.
    pub fn new(rule_id: String) -> (r: Self)
        ensures
            r.rule_id == rule_id,
            r.priority == 0,
            r.scope.is_global,
            r.scope.agent_ids@.len() == 0,
            r.scope.tags@.len() == 0,
            r.confidence_threshold_bits == 0x3F00_0000u32,
            r.escalate_target@ == "human-review"@,
            r.semantic_hook is None,
            r.description is None,
            r.enabled,
    {
        ModelOutputEscalateRule {
            rule_id,
            priority: 0,
            scope: RuleScope::global(),
            confidence_threshold_bits: 0x3F00_0000u32,
            escalate_target: owned("human-review"),
            semantic_hook: None,
            created_at: now_ms(),
            description: None,
            enabled: true,
        }
    }

    /// Sets the priority.
    pub fn with_priority(self, priority: u32) -> (r: Self)
        ensures
            r == (ModelOutputEscalateRule { priority: priority, ..self }),
    {
        ModelOutputEscalateRule { priority: priority, ..self }
    }

    /// Sets the scope.
    pub fn with_scope(self, scope: RuleScope) -> (r: Self)
        ensures
            r == (ModelOutputEscalateRule { scope: scope, ..self }),
    {
        ModelOutputEscalateRule { scope: scope, ..self }
    }

    /// Scopes the rule to one agent.
    pub fn for_agent(self, agent_id: String) -> (r: Self)
        ensures
            r == (ModelOutputEscalateRule { scope: r.scope, ..self }),
            !r.scope.is_global,
            r.scope.agent_ids@ == seq![agent_id],
            r.scope.tags@.len() == 0,
    {
        ModelOutputEscalateRule { scope: RuleScope::for_agent(agent_id), ..self }
    }

    /// Sets the escalation target.
    pub fn with_escalate_target(self, target: String) -> (r: Self)
        ensures
            r == (ModelOutputEscalateRule { escalate_target: target, ..self }),
    {
        ModelOutputEscalateRule { escalate_target: target, ..self }
    }

    /// Sets the module assessing confidence.
    pub fn with_semantic_hook(self, hook: String) -> (r: Self)
        ensures
            r == (ModelOutputEscalateRule { semantic_hook: Some(hook), ..self }),
    {
        ModelOutputEscalateRule { semantic_hook: Some(hook), ..self }
    }

    /// Sets the description.
    pub fn with_description(self, desc: String) -> (r: Self)
        ensures
            r == (ModelOutputEscalateRule { description: Some(desc), ..self }),
    {
        ModelOutputEscalateRule { description: Some(desc), ..self }
    }
}

} // verus!

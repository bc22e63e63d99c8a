//! Retrieval layer families: source restriction and document sensitivity.
use vstd::prelude::*;
use crate::bridge::types::{now_ms, RuleAction, RuleScope};
use crate::text::{owned, strs_view};
use crate::text::{list_contains, list_contains_ignore_ascii_case, some_eq_ignore_ascii_case};

verus! {

/// Restricts the retriever to specific sources or indices.
#[derive(Debug, Clone)]
pub struct RAGSourceRule {
    /// Unique rule identifier
    pub rule_id: String,
    /// Priority (higher = evaluated first)
    pub priority: u32,
    /// Which agents the rule applies to
    pub scope: RuleScope,
    /// Allowed source ids (empty = any)
    pub allowed_sources: Vec<String>,
    /// Documents retrieved at most
    pub max_docs: u32,
    /// Tokens per document at most
    pub max_tokens_per_doc: u32,
    /// Creation time in milliseconds since the epoch
    pub created_at: u64,
    /// Optional description
    pub description: Option<String>,
    /// Whether the rule is enabled
    pub enabled: bool,
}

impl RAGSourceRule {
    /// A new rule with default settings and a global scope.
    pub fn new(rule_id: String) -> (r: Self)
        ensures
            r.rule_id == rule_id,
            r.priority == 0,
            r.scope.is_global,
            r.scope.agent_ids@.len() == 0,
            r.scope.tags@.len() == 0,
            r.allowed_sources@.len() == 0,
            r.max_docs == 5,
            r.max_tokens_per_doc == 1000,
            r.description is None,
            r.enabled,
    {
        RAGSourceRule {
            rule_id,
            priority: 0,
            scope: RuleScope::global(),
            allowed_sources: Vec::new(),
            max_docs: 5,
            max_tokens_per_doc: 1000,
            created_at: now_ms(),
            description: None,
            enabled: true,
        }
    }

    /// Sets the priority.
    pub fn with_priority(self, priority: u32) -> (r: Self)
        ensures
            r == (RAGSourceRule { priority: priority, ..self }),
    {
        RAGSourceRule { priority: priority, ..self }
    }

    /// Sets the scope.
    pub fn with_scope(self, scope: RuleScope) -> (r: Self)
        ensures
            r == (RAGSourceRule { scope: scope, ..self }),
    {
        RAGSourceRule { scope: scope, ..self }
    }

    /// Scopes the rule to one agent.
    pub fn for_agent(self, agent_id: String) -> (r: Self)
        ensures
            r == (RAGSourceRule { scope: r.scope, ..self }),
            !r.scope.is_global,
            r.scope.agent_ids@ == seq![agent_id],
            r.scope.tags@.len() == 0,
    {
        RAGSourceRule { scope: RuleScope::for_agent(agent_id), ..self }
    }

    /// Sets the allowed sources.
    pub fn with_allowed_sources(self, sources: Vec<String>) -> (r: Self)
        ensures
            r == (RAGSourceRule { allowed_sources: sources, ..self }),
    {
        RAGSourceRule { allowed_sources: sources, ..self }
    }

    /// Sets the document limit.
    pub fn with_max_docs(self, max: u32) -> (r: Self)
        ensures
            r == (RAGSourceRule { max_docs: max, ..self }),
    {
        RAGSourceRule { max_docs: max, ..self }
    }

    /// Sets the per-document token limit.
    pub fn with_max_tokens_per_doc(self, max: u32) -> (r: Self)
        ensures
            r == (RAGSourceRule { max_tokens_per_doc: max, ..self }),
    {
        RAGSourceRule { max_tokens_per_doc: max, ..self }
    }

    /// Sets the description.
    pub fn with_description(self, desc: String) -> (r: Self)
        ensures
            r == (RAGSourceRule { description: Some(desc), ..self }),
    {
        RAGSourceRule { description: Some(desc), ..self }
    }

    /// Whether a source may be used: the list is empty or names it.
    pub fn is_source_allowed(&self, source_id: &str) -> (r: bool)
        ensures
            r == (self.allowed_sources@.len() == 0 || strs_view(self.allowed_sources@).contains(source_id@)),
    {
        self.allowed_sources.len() == 0 || list_contains(&self.allowed_sources, source_id)
    }

}

/// Blocks sensitive or classified documents from being injected.
#[derive(Debug, Clone)]
pub struct RAGDocSensitivityRule {
    /// Unique rule identifier
    pub rule_id: String,
    /// Priority (higher = evaluated first)
    pub priority: u32,
    /// Which agents the rule applies to
    pub scope: RuleScope,
    /// Semantic classifier to run
    pub semantic_hook: String,
    /// Action on detection
    pub action: RuleAction,
    /// Where escalations go
    pub escalate_target: Option<String>,
    /// Sensitivity levels that are blocked
    pub blocked_levels: Vec<String>,
    /// Creation time in milliseconds since the epoch
    pub created_at: u64,
    /// Optional description
    pub description: Option<String>,
    /// Whether the rule is enabled
    pub enabled: bool,
}

impl RAGDocSensitivityRule {
    /// A new rule with default settings and a global scope.
    pub fn new(rule_id: String) -> (r: Self)
        ensures
            r.rule_id == rule_id,
            r.priority == 0,
            r.scope.is_global,
            r.scope.agent_ids@.len() == 0,
            r.scope.tags@.len() == 0,
            r.semantic_hook@.len() == 0,
            r.action == RuleAction::Deny,
            r.escalate_target is None,
            strs_view(r.blocked_levels@) =~= seq!["confidential"@, "secret"@],
            r.description is None,
            r.enabled,
    {
        let mut blocked_levels = Vec::new();
        blocked_levels.push(owned("confidential"));
        blocked_levels.push(owned("secret"));
        RAGDocSensitivityRule {
            rule_id,
            priority: 0,
            scope: RuleScope::global(),
            semantic_hook: String::new(),
            action: RuleAction::Deny,
            escalate_target: None,
            blocked_levels: blocked_levels,
            created_at: now_ms(),
            description: None,
            enabled: true,
        }
    }

    /// Sets the priority.
    pub fn with_priority(self, priority: u32) -> (r: Self)
        ensures
            r == (RAGDocSensitivityRule { priority: priority, ..self }),
    {
        RAGDocSensitivityRule { priority: priority, ..self }
    }

    /// Sets the scope.
    pub fn with_scope(self, scope: RuleScope) -> (r: Self)
        ensures
            r == (RAGDocSensitivityRule { scope: scope, ..self }),
    {
        RAGDocSensitivityRule { scope: scope, ..self }
    }

    /// Scopes the rule to one agent.
    pub fn for_agent(self, agent_id: String) -> (r: Self)
        ensures
            r == (RAGDocSensitivityRule { scope: r.scope, ..self }),
            !r.scope.is_global,
            r.scope.agent_ids@ == seq![agent_id],
            r.scope.tags@.len() == 0,
    {
        RAGDocSensitivityRule { scope: RuleScope::for_agent(agent_id), ..self }
    }

    /// Sets the classifier.
    pub fn with_semantic_hook(self, hook: String) -> (r: Self)
        ensures
            r == (RAGDocSensitivityRule { semantic_hook: hook, ..self }),
    {
        RAGDocSensitivityRule { semantic_hook: hook, ..self }
    }

    /// Sets the action.
    pub fn with_action(self, action: RuleAction) -> (r: Self)
        ensures
            r == (RAGDocSensitivityRule { action: action, ..self }),
    {
        RAGDocSensitivityRule { action: action, ..self }
    }

    /// Sets the escalation target.
    pub fn with_escalate_target(self, target: String) -> (r: Self)
        ensures
            r == (RAGDocSensitivityRule { escalate_target: Some(target), ..self }),
    {
        RAGDocSensitivityRule { escalate_target: Some(target), ..self }
    }

    /// Sets the blocked levels.
    pub fn with_blocked_levels(self, levels: Vec<String>) -> (r: Self)
        ensures
            r == (RAGDocSensitivityRule { blocked_levels: levels, ..self }),
    {
        RAGDocSensitivityRule { blocked_levels: levels, ..self }
    }

    /// Sets the description.
    pub fn with_description(self, desc: String) -> (r: Self)
        ensures
            r == (RAGDocSensitivityRule { description: Some(desc), ..self }),
    {
        RAGDocSensitivityRule { description: Some(desc), ..self }
    }

    /// Whether a sensitivity level is blocked, comparing ASCII case-insensitively.
    pub fn is_level_blocked(&self, level: &str) -> (r: bool)
        ensures
            r == some_eq_ignore_ascii_case(strs_view(self.blocked_levels@), level@),
    {
        list_contains_ignore_ascii_case(&self.blocked_levels, level)
    }

}

} // verus!

//! Planner layer families: prompt assembly and prompt length.
use vstd::prelude::*;
use crate::bridge::types::{now_ms, RuleAction, RuleScope};
use crate::text::{owned, strs_view};
use crate::text::list_contains;

verus! {

/// Allows only approved context sources while a prompt is built.
#[derive(Debug, Clone)]
pub struct PromptAssemblyRule {
    /// Unique rule identifier
    pub rule_id: String,
    /// Priority (higher = evaluated first)
    pub priority: u32,
    /// Which agents the rule applies to
    pub scope: RuleScope,
    /// Allowed context source ids (empty = any)
    pub allowed_context_ids: Vec<String>,
    /// Whether provenance is enforced
    pub enforce_provenance: bool,
    /// Token limit of the prompt
    pub max_prompt_tokens: u32,
    /// Creation time in milliseconds since the epoch
    pub created_at: u64,
    /// Optional description
    pub description: Option<String>,
    /// Whether the rule is enabled
    pub enabled: bool,
}

impl PromptAssemblyRule {
    /// A new rule with default settings and a global scope.
    pub fn new(rule_id: String) -> (r: Self)
        ensures
            r.rule_id == rule_id,
            r.priority == 0,
            r.scope.is_global,
            r.scope.agent_ids@.len() == 0,
            r.scope.tags@.len() == 0,
            r.allowed_context_ids@.len() == 0,
            r.enforce_provenance == true,
            r.max_prompt_tokens == 8192,
            r.description is None,
            r.enabled,
    {
        PromptAssemblyRule {
            rule_id,
            priority: 0,
            scope: RuleScope::global(),
            allowed_context_ids: Vec::new(),
            enforce_provenance: true,
            max_prompt_tokens: 8192,
            created_at: now_ms(),
            description: None,
            enabled: true,
        }
    }

    /// Sets the priority.
    pub fn with_priority(self, priority: u32) -> (r: Self)
        ensures
            r == (PromptAssemblyRule { priority: priority, ..self }),
    {
        PromptAssemblyRule { priority: priority, ..self }
    }

    /// Sets the scope.
    pub fn with_scope(self, scope: RuleScope) -> (r: Self)
        ensures
            r == (PromptAssemblyRule { scope: scope, ..self }),
    {
        PromptAssemblyRule { scope: scope, ..self }
    }

    /// Scopes the rule to one agent.
    pub fn for_agent(self, agent_id: String) -> (r: Self)
        ensures
            r == (PromptAssemblyRule { scope: r.scope, ..self }),
            !r.scope.is_global,
            r.scope.agent_ids@ == seq![agent_id],
            r.scope.tags@.len() == 0,
    {
        PromptAssemblyRule { scope: RuleScope::for_agent(agent_id), ..self }
    }

    /// Sets the allowed context ids.
    pub fn with_allowed_context_ids(self, ids: Vec<String>) -> (r: Self)
        ensures
            r == (PromptAssemblyRule { allowed_context_ids: ids, ..self }),
    {
        PromptAssemblyRule { allowed_context_ids: ids, ..self }
    }

    /// Sets provenance enforcement.
    pub fn with_enforce_provenance(self, enforce: bool) -> (r: Self)
        ensures
            r == (PromptAssemblyRule { enforce_provenance: enforce, ..self }),
    {
        PromptAssemblyRule { enforce_provenance: enforce, ..self }
    }

    /// Sets the token limit.
    pub fn with_max_prompt_tokens(self, tokens: u32) -> (r: Self)
        ensures
            r == (PromptAssemblyRule { max_prompt_tokens: tokens, ..self }),
    {
        PromptAssemblyRule { max_prompt_tokens: tokens, ..self }
    }

    /// Sets the description.
    pub fn with_description(self, desc: String) -> (r: Self)
        ensures
            r == (PromptAssemblyRule { description: Some(desc), ..self }),
    {
        PromptAssemblyRule { description: Some(desc), ..self }
    }

    /// Whether a context source may be used: the list is empty or names it.
    pub fn is_context_allowed(&self, context_id: &str) -> (r: bool)
        ensures
            r == (self.allowed_context_ids@.len() == 0 || strs_view(self.allowed_context_ids@).contains(context_id@)),
    {
        self.allowed_context_ids.len() == 0 || list_contains(&self.allowed_context_ids, context_id)
    }

}

/// Prevents runaway token counts in composed prompts.
#[derive(Debug, Clone)]
pub struct PromptLengthRule {
    /// Unique rule identifier
    pub rule_id: String,
    /// Priority (higher = evaluated first)
    pub priority: u32,
    /// Which agents the rule applies to
    pub scope: RuleScope,
    /// Token limit of the prompt
    pub max_prompt_tokens: u32,
    /// Action when the limit is exceeded
    pub action_on_violation: RuleAction,
    /// Creation time in milliseconds since the epoch
    pub created_at: u64,
    /// Optional description
    pub description: Option<String>,
    /// Whether the rule is enabled
    pub enabled: bool,
}

impl PromptLengthRule {
    /// A new rule with default settings and a global scope.
    pub fn new(rule_id: String) -> (r: Self)
        ensures
            r.rule_id == rule_id,
            r.priority == 0,
            r.scope.is_global,
            r.scope.agent_ids@.len() == 0,
            r.scope.tags@.len() == 0,
            r.max_prompt_tokens == 8192,
            r.action_on_violation == RuleAction::Truncate,
            r.description is None,
            r.enabled,
    {
        PromptLengthRule {
            rule_id,
            priority: 0,
            scope: RuleScope::global(),
            max_prompt_tokens: 8192,
            action_on_violation: RuleAction::Truncate,
            created_at: now_ms(),
            description: None,
            enabled: true,
        }
    }

    /// Sets the priority.
    pub fn with_priority(self, priority: u32) -> (r: Self)
        ensures
            r == (PromptLengthRule { priority: priority, ..self }),
    {
        PromptLengthRule { priority: priority, ..self }
    }

    /// Sets the scope.
    pub fn with_scope(self, scope: RuleScope) -> (r: Self)
        ensures
            r == (PromptLengthRule { scope: scope, ..self }),
    {
        PromptLengthRule { scope: scope, ..self }
    }

    /// Scopes the rule to one agent.
    pub fn for_agent(self, agent_id: String) -> (r: Self)
        ensures
            r == (PromptLengthRule { scope: r.scope, ..self }),
            !r.scope.is_global,
            r.scope.agent_ids@ == seq![agent_id],
            r.scope.tags@.len() == 0,
    {
        PromptLengthRule { scope: RuleScope::for_agent(agent_id), ..self }
    }

    /// Sets the token limit.
    pub fn with_max_prompt_tokens(self, tokens: u32) -> (r: Self)
        ensures
            r == (PromptLengthRule { max_prompt_tokens: tokens, ..self }),
    {
        PromptLengthRule { max_prompt_tokens: tokens, ..self }
    }

    /// Sets the action on violation.
    pub fn with_action_on_violation(self, action: RuleAction) -> (r: Self)
        ensures
            r == (PromptLengthRule { action_on_violation: action, ..self }),
    {
        PromptLengthRule { action_on_violation: action, ..self }
    }

    /// Sets the description.
    pub fn with_description(self, desc: String) -> (r: Self)
        ensures
            r == (PromptLengthRule { description: Some(desc), ..self }),
    {
        PromptLengthRule { description: Some(desc), ..self }
    }

    /// Whether a token count is within the limit.
    pub fn is_token_count_valid(&self, token_count: u32) -> (r: bool)
        ensures
            r == (token_count <= self.max_prompt_tokens),
    {
        token_count <= self.max_prompt_tokens
    }

}

} // verus!

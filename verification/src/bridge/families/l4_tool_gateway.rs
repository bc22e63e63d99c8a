//! Tool gateway layer family: tool whitelists.
use vstd::prelude::*;
use crate::bridge::types::{now_ms, ParamType, RuleAction, RuleScope};
use crate::text::{owned, strs_view};
use crate::text::list_contains;

verus! {

/// Allows only specific tools for an agent.
#[derive(Debug, Clone)]
pub struct ToolWhitelistRule {
    /// Unique rule identifier
    pub rule_id: String,
    /// Priority (higher = evaluated first)
    pub priority: u32,
    /// Which agents the rule applies to
    pub scope: RuleScope,
    /// Allowed tool ids (empty = any)
    pub allowed_tool_ids: Vec<String>,
    /// Allowed methods (empty = any)
    pub allowed_methods: Vec<String>,
    /// Calls allowed per minute
    pub rate_limit_per_min: Option<u32>,
    /// Creation time in milliseconds since the epoch
    pub created_at: u64,
    /// Optional description
    pub description: Option<String>,
    /// Whether the rule is enabled
    pub enabled: bool,
}

impl ToolWhitelistRule {
    /// A new rule with default settings and a global scope.
    pub fn new(rule_id: String) -> (r: Self)
        ensures
            r.rule_id == rule_id,
            r.priority == 0,
            r.scope.is_global,
            r.scope.agent_ids@.len() == 0,
            r.scope.tags@.len() == 0,
            r.allowed_tool_ids@.len() == 0,
            r.allowed_methods@.len() == 0,
            r.rate_limit_per_min is None,
            r.description is None,
            r.enabled,
    {
        ToolWhitelistRule {
            rule_id,
            priority: 0,
            scope: RuleScope::global(),
            allowed_tool_ids: Vec::new(),
            allowed_methods: Vec::new(),
            rate_limit_per_min: None,
            created_at: now_ms(),
            description: None,
            enabled: true,
        }
    }

    /// Sets the priority.
    pub fn with_priority(self, priority: u32) -> (r: Self)
        ensures
            r == (ToolWhitelistRule { priority: priority, ..self }),
    {
        ToolWhitelistRule { priority: priority, ..self }
    }

    /// Sets the scope.
    pub fn with_scope(self, scope: RuleScope) -> (r: Self)
        ensures
            r == (ToolWhitelistRule { scope: scope, ..self }),
    {
        ToolWhitelistRule { scope: scope, ..self }
    }

    /// Scopes the rule to one agent.
    pub fn for_agent(self, agent_id: String) -> (r: Self)
        ensures
            r == (ToolWhitelistRule { scope: r.scope, ..self }),
            !r.scope.is_global,
            r.scope.agent_ids@ == seq![agent_id],
            r.scope.tags@.len() == 0,
    {
        ToolWhitelistRule { scope: RuleScope::for_agent(agent_id), ..self }
    }

    /// Sets the allowed tools.
    pub fn with_allowed_tool_ids(self, tool_ids: Vec<String>) -> (r: Self)
        ensures
            r == (ToolWhitelistRule { allowed_tool_ids: tool_ids, ..self }),
    {
        ToolWhitelistRule { allowed_tool_ids: tool_ids, ..self }
    }

    /// Sets the allowed methods.
    pub fn with_allowed_methods(self, methods: Vec<String>) -> (r: Self)
        ensures
            r == (ToolWhitelistRule { allowed_methods: methods, ..self }),
    {
        ToolWhitelistRule { allowed_methods: methods, ..self }
    }

    /// Sets the rate limit.
    pub fn with_rate_limit_per_min(self, limit: u32) -> (r: Self)
        ensures
            r == (ToolWhitelistRule { rate_limit_per_min: Some(limit), ..self }),
    {
        ToolWhitelistRule { rate_limit_per_min: Some(limit), ..self }
    }

    /// Sets the description.
    pub fn with_description(self, desc: String) -> (r: Self)
        ensures
            r == (ToolWhitelistRule { description: Some(desc), ..self }),
    {
        ToolWhitelistRule { description: Some(desc), ..self }
    }

    /// Whether a tool may be called: the list is empty or names it.
    pub fn is_tool_allowed(&self, tool_id: &str) -> (r: bool)
        ensures
            r == (self.allowed_tool_ids@.len() == 0 || strs_view(self.allowed_tool_ids@).contains(tool_id@)),
    {
        self.allowed_tool_ids.len() == 0 || list_contains(&self.allowed_tool_ids, tool_id)
    }

    /// Whether a method may be called: the list is empty or names it.
    pub fn is_method_allowed(&self, method: &str) -> (r: bool)
        ensures
            r == (self.allowed_methods@.len() == 0 || strs_view(self.allowed_methods@).contains(method@)),
    {
        self.allowed_methods.len() == 0 || list_contains(&self.allowed_methods, method)
    }

}

/// Whether a tool parameter constraint blocks or only warns.
#[derive(Debug, Clone, Copy, PartialEq, Eq, Structural)]
pub enum EnforcementMode {
    Hard,
    Soft,
}

/// Enforces type and value bounds on a tool parameter.
#[derive(Debug, Clone)]
pub struct ToolParamConstraintRule {
    /// Unique rule identifier
    pub rule_id: String,
    /// Priority (higher = evaluated first)
    pub priority: u32,
    /// Which agents the rule applies to
    pub scope: RuleScope,
    /// The tool whose parameter is constrained
    pub tool_id: String,
    /// The constrained parameter
    pub param_name: String,
    /// Its expected type
    pub param_type: ParamType,
    /// A pattern the value must match
    pub regex: Option<String>,
    /// The values allowed, if listed
    pub allowed_values: Vec<String>,
    /// The longest value allowed
    pub max_len: Option<usize>,
    /// Lower bound, as the bits of an IEEE 754 double-precision number
    pub min_value_bits: Option<u64>,
    /// Upper bound, as the bits of an IEEE 754 double-precision number
    pub max_value_bits: Option<u64>,
    /// Whether a violation blocks or warns
    pub enforcement_mode: EnforcementMode,
    /// Creation time in milliseconds since the epoch
    pub created_at: u64,
    /// Optional description
    pub description: Option<String>,
    /// Whether the rule is enabled
    pub enabled: bool,
}

impl ToolParamConstraintRule {
    /// A new rule with a global scope and no constraint yet, enforced hard.
    pub fn new(rule_id: String) -> (r: Self)
        ensures
            r.rule_id == rule_id,
            r.priority == 0,
            r.scope.is_global,
            r.scope.agent_ids@.len() == 0,
            r.scope.tags@.len() == 0,
            r.tool_id@.len() == 0,
            r.param_name@.len() == 0,
            r.param_type == ParamType::String,
            r.regex is None,
            r.allowed_values@.len() == 0,
            r.max_len is None,
            r.min_value_bits is None,
            r.max_value_bits is None,
            r.enforcement_mode == EnforcementMode::Hard,
            r.description is None,
            r.enabled,
    {
        ToolParamConstraintRule {
            rule_id,
            priority: 0,
            scope: RuleScope::global(),
            tool_id: String::new(),
            param_name: String::new(),
            param_type: ParamType::String,
            regex: None,
            allowed_values: Vec::new(),
            max_len: None,
            min_value_bits: None,
            max_value_bits: None,
            enforcement_mode: EnforcementMode::Hard,
            created_at: now_ms(),
            description: None,
            enabled: true,
        }
    }

    /// Sets the priority.
    pub fn with_priority(self, priority: u32) -> (r: Self)
        ensures
            r == (ToolParamConstraintRule { priority: priority, ..self }),
    {
        ToolParamConstraintRule { priority: priority, ..self }
    }

    /// Sets the scope.
    pub fn with_scope(self, scope: RuleScope) -> (r: Self)
        ensures
            r == (ToolParamConstraintRule { scope: scope, ..self }),
    {
        ToolParamConstraintRule { scope: scope, ..self }
    }

    /// Scopes the rule to one agent.
    pub fn for_agent(self, agent_id: String) -> (r: Self)
        ensures
            r == (ToolParamConstraintRule { scope: r.scope, ..self }),
            !r.scope.is_global,
            r.scope.agent_ids@ == seq![agent_id],
            r.scope.tags@.len() == 0,
    {
        ToolParamConstraintRule { scope: RuleScope::for_agent(agent_id), ..self }
    }

    /// Sets the tool.
    pub fn with_tool_id(self, tool_id: String) -> (r: Self)
        ensures
            r == (ToolParamConstraintRule { tool_id: tool_id, ..self }),
    {
        ToolParamConstraintRule { tool_id: tool_id, ..self }
    }

    /// Sets the parameter.
    pub fn with_param_name(self, name: String) -> (r: Self)
        ensures
            r == (ToolParamConstraintRule { param_name: name, ..self }),
    {
        ToolParamConstraintRule { param_name: name, ..self }
    }

    /// Sets the expected type.
    pub fn with_param_type(self, param_type: ParamType) -> (r: Self)
        ensures
            r == (ToolParamConstraintRule { param_type: param_type, ..self }),
    {
        ToolParamConstraintRule { param_type: param_type, ..self }
    }

    /// Sets the pattern.
    pub fn with_regex(self, regex: String) -> (r: Self)
        ensures
            r == (ToolParamConstraintRule { regex: Some(regex), ..self }),
    {
        ToolParamConstraintRule { regex: Some(regex), ..self }
    }

    /// Sets the allowed values.
    pub fn with_allowed_values(self, values: Vec<String>) -> (r: Self)
        ensures
            r == (ToolParamConstraintRule { allowed_values: values, ..self }),
    {
        ToolParamConstraintRule { allowed_values: values, ..self }
    }

    /// Sets the longest value allowed.
    pub fn with_max_len(self, len: usize) -> (r: Self)
        ensures
            r == (ToolParamConstraintRule { max_len: Some(len), ..self }),
    {
        ToolParamConstraintRule { max_len: Some(len), ..self }
    }

    /// Sets whether a violation blocks or warns.
    pub fn with_enforcement_mode(self, mode: EnforcementMode) -> (r: Self)
        ensures
            r == (ToolParamConstraintRule { enforcement_mode: mode, ..self }),
    {
        ToolParamConstraintRule { enforcement_mode: mode, ..self }
    }

    /// Sets the description.
    pub fn with_description(self, desc: String) -> (r: Self)
        ensures
            r == (ToolParamConstraintRule { description: Some(desc), ..self }),
    {
        ToolParamConstraintRule { description: Some(desc), ..self }
    }
}

} // verus!

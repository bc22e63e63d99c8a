//! Input layer families: payload schema and input sanitization.
use vstd::prelude::*;
use crate::bridge::types::{now_ms, RuleAction, RuleScope};
use crate::text::{owned, strs_view};
use crate::text::{contains_str, has_substring, str_to_lowercase, unicode_lowercase};
use vstd::string::*;

verus! {

/// Enforces payload schema, size and type.
#[derive(Debug, Clone)]
pub struct InputSchemaRule {
    /// Unique rule identifier
    pub rule_id: String,
    /// Priority (higher = evaluated first)
    pub priority: u32,
    /// Which agents the rule applies to
    pub scope: RuleScope,
    /// Schema reference id
    pub schema_ref: String,
    /// Expected payload data type
    pub payload_dtype: String,
    /// Maximum payload size in bytes
    pub max_bytes: u32,
    /// Action on validation failure
    pub action: RuleAction,
    /// Creation time in milliseconds since the epoch
    pub created_at: u64,
    /// Optional description
    pub description: Option<String>,
    /// Whether the rule is enabled
    pub enabled: bool,
}

impl InputSchemaRule {
    /// A new rule with default settings and a global scope.
    pub fn new(rule_id: String) -> (r: Self)
        ensures
            r.rule_id == rule_id,
            r.priority == 0,
            r.scope.is_global,
            r.scope.agent_ids@.len() == 0,
            r.scope.tags@.len() == 0,
            r.schema_ref@.len() == 0,
            r.payload_dtype@ == "application/json"@,
            r.max_bytes == 1_000_000,
            r.action == RuleAction::Deny,
            r.description is None,
            r.enabled,
    {
        InputSchemaRule {
            rule_id,
            priority: 0,
            scope: RuleScope::global(),
            schema_ref: String::new(),
            payload_dtype: owned("application/json"),
            max_bytes: 1_000_000,
            action: RuleAction::Deny,
            created_at: now_ms(),
            description: None,
            enabled: true,
        }
    }

    /// Sets the priority.
    pub fn with_priority(self, priority: u32) -> (r: Self)
        ensures
            r == (InputSchemaRule { priority: priority, ..self }),
    {
        InputSchemaRule { priority: priority, ..self }
    }

    /// Sets the scope.
    pub fn with_scope(self, scope: RuleScope) -> (r: Self)
        ensures
            r == (InputSchemaRule { scope: scope, ..self }),
    {
        InputSchemaRule { scope: scope, ..self }
    }

    /// Scopes the rule to one agent.
    pub fn for_agent(self, agent_id: String) -> (r: Self)
        ensures
            r == (InputSchemaRule { scope: r.scope, ..self }),
            !r.scope.is_global,
            r.scope.agent_ids@ == seq![agent_id],
            r.scope.tags@.len() == 0,
    {
        InputSchemaRule { scope: RuleScope::for_agent(agent_id), ..self }
    }

    /// Sets the schema reference.
    pub fn with_schema_ref(self, schema_ref: String) -> (r: Self)
        ensures
            r == (InputSchemaRule { schema_ref: schema_ref, ..self }),
    {
        InputSchemaRule { schema_ref: schema_ref, ..self }
    }

    /// Sets the expected payload type.
    pub fn with_payload_dtype(self, payload_dtype: String) -> (r: Self)
        ensures
            r == (InputSchemaRule { payload_dtype: payload_dtype, ..self }),
    {
        InputSchemaRule { payload_dtype: payload_dtype, ..self }
    }

    /// Sets the size limit.
    pub fn with_max_bytes(self, max_bytes: u32) -> (r: Self)
        ensures
            r == (InputSchemaRule { max_bytes: max_bytes, ..self }),
    {
        InputSchemaRule { max_bytes: max_bytes, ..self }
    }

    /// Sets the action on failure.
    pub fn with_action(self, action: RuleAction) -> (r: Self)
        ensures
            r == (InputSchemaRule { action: action, ..self }),
    {
        InputSchemaRule { action: action, ..self }
    }

    /// Sets the description.
    pub fn with_description(self, desc: String) -> (r: Self)
        ensures
            r == (InputSchemaRule { description: Some(desc), ..self }),
    {
        InputSchemaRule { description: Some(desc), ..self }
    }

    /// Whether a payload of this many bytes is within the limit.
    pub fn is_size_valid(&self, payload_size: usize) -> (r: bool)
        ensures
            r == (payload_size <= self.max_bytes),
    {
        payload_size as u64 <= self.max_bytes as u64
    }

}

/// Sanitizes and validates input data.
#[derive(Debug, Clone)]
pub struct InputSanitizationRule {
    /// Unique rule identifier
    pub rule_id: String,
    /// Priority (higher = evaluated first)
    pub priority: u32,
    /// Which agents the rule applies to
    pub scope: RuleScope,
    /// Patterns to strip from input
    pub patterns_to_strip: Vec<String>,
    /// Character whitelist
    pub allowed_chars: Option<String>,
    /// Patterns that trigger rejection
    pub blocked_patterns: Vec<String>,
    /// Maximum length in bytes after sanitization
    pub max_length: Option<usize>,
    /// Action on detection
    pub action: RuleAction,
    /// Whether to normalize Unicode
    pub normalize_unicode: bool,
    /// Whether to trim whitespace
    pub trim_whitespace: bool,
    /// Creation time in milliseconds since the epoch
    pub created_at: u64,
    /// Optional description
    pub description: Option<String>,
    /// Whether the rule is enabled
    pub enabled: bool,
}

impl InputSanitizationRule {
    /// A new rule with default settings and a global scope.
    pub fn new(rule_id: String) -> (r: Self)
        ensures
            r.rule_id == rule_id,
            r.priority == 0,
            r.scope.is_global,
            r.scope.agent_ids@.len() == 0,
            r.scope.tags@.len() == 0,
            r.patterns_to_strip@.len() == 0,
            r.allowed_chars is None,
            r.blocked_patterns@.len() == 0,
            r.max_length is None,
            r.action == RuleAction::Deny,
            r.normalize_unicode == true,
            r.trim_whitespace == true,
            r.description is None,
            r.enabled,
    {
        InputSanitizationRule {
            rule_id,
            priority: 0,
            scope: RuleScope::global(),
            patterns_to_strip: Vec::new(),
            allowed_chars: None,
            blocked_patterns: Vec::new(),
            max_length: None,
            action: RuleAction::Deny,
            normalize_unicode: true,
            trim_whitespace: true,
            created_at: now_ms(),
            description: None,
            enabled: true,
        }
    }

    /// Sets the priority.
    pub fn with_priority(self, priority: u32) -> (r: Self)
        ensures
            r == (InputSanitizationRule { priority: priority, ..self }),
    {
        InputSanitizationRule { priority: priority, ..self }
    }

    /// Sets the scope.
    pub fn with_scope(self, scope: RuleScope) -> (r: Self)
        ensures
            r == (InputSanitizationRule { scope: scope, ..self }),
    {
        InputSanitizationRule { scope: scope, ..self }
    }

    /// Scopes the rule to one agent.
    pub fn for_agent(self, agent_id: String) -> (r: Self)
        ensures
            r == (InputSanitizationRule { scope: r.scope, ..self }),
            !r.scope.is_global,
            r.scope.agent_ids@ == seq![agent_id],
            r.scope.tags@.len() == 0,
    {
        InputSanitizationRule { scope: RuleScope::for_agent(agent_id), ..self }
    }

    /// Sets the patterns to strip.
    pub fn with_patterns_to_strip(self, patterns: Vec<String>) -> (r: Self)
        ensures
            r == (InputSanitizationRule { patterns_to_strip: patterns, ..self }),
    {
        InputSanitizationRule { patterns_to_strip: patterns, ..self }
    }

    /// Sets the character whitelist.
    pub fn with_allowed_chars(self, chars: String) -> (r: Self)
        ensures
            r == (InputSanitizationRule { allowed_chars: Some(chars), ..self }),
    {
        InputSanitizationRule { allowed_chars: Some(chars), ..self }
    }

    /// Sets the blocked patterns.
    pub fn with_blocked_patterns(self, patterns: Vec<String>) -> (r: Self)
        ensures
            r == (InputSanitizationRule { blocked_patterns: patterns, ..self }),
    {
        InputSanitizationRule { blocked_patterns: patterns, ..self }
    }

    /// Sets the length limit.
    pub fn with_max_length(self, length: usize) -> (r: Self)
        ensures
            r == (InputSanitizationRule { max_length: Some(length), ..self }),
    {
        InputSanitizationRule { max_length: Some(length), ..self }
    }

    /// Sets the action on detection.
    pub fn with_action(self, action: RuleAction) -> (r: Self)
        ensures
            r == (InputSanitizationRule { action: action, ..self }),
    {
        InputSanitizationRule { action: action, ..self }
    }

    /// Sets Unicode normalization.
    pub fn with_normalize_unicode(self, normalize: bool) -> (r: Self)
        ensures
            r == (InputSanitizationRule { normalize_unicode: normalize, ..self }),
    {
        InputSanitizationRule { normalize_unicode: normalize, ..self }
    }

    /// Sets whitespace trimming.
    pub fn with_trim_whitespace(self, trim: bool) -> (r: Self)
        ensures
            r == (InputSanitizationRule { trim_whitespace: trim, ..self }),
    {
        InputSanitizationRule { trim_whitespace: trim, ..self }
    }

    /// Sets the description.
    pub fn with_description(self, desc: String) -> (r: Self)
        ensures
            r == (InputSanitizationRule { description: Some(desc), ..self }),
    {
        InputSanitizationRule { description: Some(desc), ..self }
    }

    /// Whether the lowercased input contains some lowercased blocked pattern.
    pub fn contains_blocked_pattern(&self, input: &str) -> (r: bool)
        ensures
            r == (exists|j: int|
                0 <= j < self.blocked_patterns@.len() && #[trigger] has_substring(
                    unicode_lowercase(input@),
                    unicode_lowercase(self.blocked_patterns@[j]@),
                )),
    {
        let lower_input = str_to_lowercase(input);
        let n = self.blocked_patterns.len();
        let mut i: usize = 0;
        while i < n
            invariant
                n == self.blocked_patterns@.len(),
                lower_input@ == unicode_lowercase(input@),
                i <= n,
                forall|j: int|
                    0 <= j < i ==> !#[trigger] has_substring(
                        unicode_lowercase(input@),
                        unicode_lowercase(self.blocked_patterns@[j]@),
                    ),
            decreases n - i,
        {
            let pattern = str_to_lowercase(self.blocked_patterns[i].as_str());
            if contains_str(lower_input.as_str(), pattern.as_str()) {
                return true;
            }
            i = i + 1;
        }
        false
    }

    /// Whether the input's byte length is within the limit, if there is one.
    pub fn is_length_valid(&self, input: &str) -> (r: bool)
        requires
            input.spec_bytes().len() <= usize::MAX,
        ensures
            r == match self.max_length {
                Some(max) => input.spec_bytes().len() <= max,
                None => true,
            },
    {
        match self.max_length {
            Some(max) => input.len() <= max,
            None => true,
        }
    }

}

} // verus!

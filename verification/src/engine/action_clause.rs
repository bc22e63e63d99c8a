//! What a rule does when it matches: typed actions, the side effects they need, and
//! the clause that bundles them with resource limits.
use vstd::prelude::*;
use std::time::Duration;
use crate::duration::{duration_as_nanos, duration_from_millis, duration_nanos, duration_of_millis, duration_of_secs};
use std::collections::HashMap;
use crate::engine::rule_metadata::{AgentId, FlowId, RuleId};

verus! {

/// Parameters of a denial.
#[derive(Debug, Clone, PartialEq, Eq, Hash)]
pub struct DenyParams {
    /// Reason for the denial
    pub reason: String,
    /// Machine-readable error code
    pub error_code: u16,
    /// HTTP status, if any
    pub http_status: Option<u16>,
}

impl Default for DenyParams {
    /// Denied by policy, code 403, HTTP 403.
    fn default() -> (r: Self)
        ensures
            r.reason@ == "Request denied by policy"@,
            r.error_code == 403,
            r.http_status == Some(403u16),
    {
        DenyParams {
            reason: String::from_str("Request denied by policy"),
            error_code: 403,
            http_status: Some(403),
        }
    }
}

/// Parameters of an allowance.
#[derive(Debug, Clone, PartialEq, Eq, Hash)]
pub struct AllowParams {
    /// Log the decision
    pub log_decision: bool,
    /// Reason, if any
    pub reason: Option<String>,
}

impl Default for AllowParams {
    /// Not logged, no reason.
    fn default() -> (r: Self)
        ensures
            !r.log_decision,
            r.reason is None,
    {
        AllowParams { log_decision: false, reason: None }
    }
}

/// Parameters of a rewrite.
#[derive(Debug, Clone, PartialEq, Eq, Hash)]
pub struct RewriteParams {
    /// Operations, in order
    pub operations: Vec<RewriteOperation>,
    /// Keep the original payload for audit
    pub preserve_original: bool,
}

/// One rewrite operation.
#[derive(Debug, Clone, PartialEq, Eq, Hash)]
pub enum RewriteOperation {
    /// Set a field
    SetField { path: String, value: String },
    /// Delete a field
    DeleteField { path: String },
    /// Rename a field
    RenameField { from: String, to: String },
    /// Transform a field
    Transform { path: String, function: TransformFunction },
}

/// A transformation of a field value.
#[derive(Debug, Clone, Copy, PartialEq, Eq, Hash, Structural)]
pub enum TransformFunction {
    Uppercase,
    Lowercase,
    Trim,
    Base64Encode,
    Base64Decode,
    Hash,
}

/// Parameters of a redaction.
#[derive(Debug, Clone, PartialEq, Eq, Hash)]
pub struct RedactParams {
    /// Fields to redact
    pub fields: Vec<String>,
    /// How to redact
    pub strategy: RedactionStrategy,
    /// Template of masked values
    pub redaction_template: Option<String>,
}

/// How a field is redacted.
#[derive(Debug, Clone, Copy, PartialEq, Eq, Hash, Structural)]
pub enum RedactionStrategy {
    Remove,
    Mask,
    Hash,
    Partial,
}

/// Parameters of a sidecar launch.
#[derive(Debug, Clone, PartialEq, Eq, Hash)]
pub struct SpawnSidecarParams {
    /// What to launch
    pub sidecar_spec: SidecarSpec,
    /// Wait for the sidecar to finish
    pub block_on_completion: bool,
    /// Hand the payload to the sidecar
    pub pass_payload: bool,
}

/// What sidecar to launch, and its limits.
#[derive(Debug, Clone, PartialEq, Eq, Hash)]
pub struct SidecarSpec {
    /// Kind of sidecar
    pub sidecar_type: String,
    /// Image or executable
    pub image: String,
    /// CPU shares
    pub cpu_shares: u32,
    /// Memory limit in MB
    pub memory_limit_mb: usize,
    /// Time limit
    pub timeout: Duration,
}

/// Parameters of a re-routing.
#[derive(Debug, Clone, PartialEq, Eq, Hash)]
pub struct RouteToParams {
    /// Destination agent, if routing to an agent
    pub dest_agent: Option<AgentId>,
    /// Queue, if routing to a queue
    pub queue_name: Option<String>,
    /// Keep the original headers
    pub preserve_headers: bool,
}

/// Parameters of a rate limit.
#[derive(Debug, PartialEq, Eq)]
pub struct RateLimitParams {
    /// Requests allowed per window
    pub max_requests: u64,
    /// The window
    pub window: Duration,
    /// What is counted
    pub scope: RateLimitScope,
    /// What happens past the limit
    pub action_on_exceed: Box<ActionType>,
}

/// What a rate limit counts.
#[derive(Debug, Clone, Copy, PartialEq, Eq, Hash, Structural)]
pub enum RateLimitScope {
    PerAgent,
    PerFlow,
    PerDestination,
    Global,
    PerKey,
}

/// Parameters of a log entry.
#[derive(Debug, Clone, PartialEq, Eq)]
pub struct LogParams {
    /// Level
    pub level: LogLevel,
    /// Message
    pub message: String,
    /// Include the payload
    pub include_payload: bool,
    /// Extra key-value data
    pub structured_data: Option<Vec<(String, String)>>,
}

/// Log levels, from least to most severe.
#[derive(Debug, Clone, Copy, PartialEq, Eq, Hash, PartialOrd, Ord, Structural)]
pub enum LogLevel {
    Debug,
    Info,
    Warning,
    Error,
    Critical,
}

/// Parameters of a metadata attachment.
#[derive(Debug, Clone, PartialEq, Eq)]
pub struct AttachMetadataParams {
    /// Key-value pairs to attach
    pub metadata: Vec<(String, String)>,
    /// Overwrite existing keys
    pub overwrite_existing: bool,
}

/// Parameters of a control-plane callback.
#[derive(Debug, Clone, PartialEq, Eq, Hash)]
pub struct CallbackParams {
    /// Endpoint URL
    pub endpoint: String,
    /// Event type sent
    pub event_type: String,
    /// Include the payload
    pub include_payload: bool,
    /// Deliver asynchronously
    pub async_delivery: bool,
}

/// Parameters of a sandboxed execution.
#[derive(Debug, Clone, PartialEq, Eq)]
pub struct SandboxExecuteParams {
    /// Module id
    pub module_id: String,
    /// Module digest
    pub module_digest: String,
    /// Time limit
    pub max_exec_time: Duration,
    /// Memory limit in MB
    pub memory_limit_mb: usize,
    /// Input parameters
    pub input_params: Option<Vec<(String, String)>>,
}

/// An action a rule takes when it matches.
#[derive(Debug, PartialEq, Eq)]
pub enum ActionType {
    /// Block the event
    Deny(DenyParams),
    /// Let the event through
    Allow(AllowParams),
    /// Rewrite the payload
    Rewrite(RewriteParams),
    /// Redact parts of the payload
    Redact(RedactParams),
    /// Launch a sidecar
    SpawnSidecar(SpawnSidecarParams),
    /// Send the event elsewhere
    RouteTo(RouteToParams),
    /// Count against a rate limit
    RateLimit(RateLimitParams),
    /// Log the event
    Log(LogParams),
    /// Attach metadata
    AttachMetadata(AttachMetadataParams),
    /// Call back the control plane
    Callback(CallbackParams),
    /// Run a sandboxed module
    SandboxExecute(SandboxExecuteParams),
}

impl Clone for ActionType {
    /// A copy of the action, its parameters cloned.
    fn clone(&self) -> (r: Self)
        decreases self,
    {
        match self {
            ActionType::Deny(p) => ActionType::Deny(p.clone()),
            ActionType::Allow(p) => ActionType::Allow(p.clone()),
            ActionType::Rewrite(p) => ActionType::Rewrite(p.clone()),
            ActionType::Redact(p) => ActionType::Redact(p.clone()),
            ActionType::SpawnSidecar(p) => ActionType::SpawnSidecar(p.clone()),
            ActionType::RouteTo(p) => ActionType::RouteTo(p.clone()),
            ActionType::RateLimit(p) => {
                let inner: &ActionType = &p.action_on_exceed;
                ActionType::RateLimit(RateLimitParams {
                    max_requests: p.max_requests,
                    window: p.window,
                    scope: p.scope,
                    action_on_exceed: Box::new(inner.clone()),
                })
            },
            ActionType::Log(p) => ActionType::Log(p.clone()),
            ActionType::AttachMetadata(p) => ActionType::AttachMetadata(p.clone()),
            ActionType::Callback(p) => ActionType::Callback(p.clone()),
            ActionType::SandboxExecute(p) => ActionType::SandboxExecute(p.clone()),
        }
    }
}

impl Clone for RateLimitParams {
    /// A copy of the parameters.
    fn clone(&self) -> (r: Self) {
        let inner: &ActionType = &self.action_on_exceed;
        RateLimitParams {
            max_requests: self.max_requests,
            window: self.window,
            scope: self.scope,
            action_on_exceed: Box::new(inner.clone()),
        }
    }
}

/// A side effect that an action may cause and a clause must allow.
#[derive(Debug, Clone, Copy, PartialEq, Eq, Hash, Structural)]
pub enum AllowedSideEffect {
    Logging,
    Metrics,
    PayloadModification,
    MetadataModification,
    StateModification,
    ProcessSpawn,
    ResourceAllocation,
    NetworkCall,
    Routing,
    SandboxExecution,
}

/// The name of a side effect, as its `Debug` form writes it.
pub open spec fn effect_text(e: AllowedSideEffect) -> Seq<char> {
    match e {
        AllowedSideEffect::Logging => "Logging"@,
        AllowedSideEffect::Metrics => "Metrics"@,
        AllowedSideEffect::PayloadModification => "PayloadModification"@,
        AllowedSideEffect::MetadataModification => "MetadataModification"@,
        AllowedSideEffect::StateModification => "StateModification"@,
        AllowedSideEffect::ProcessSpawn => "ProcessSpawn"@,
        AllowedSideEffect::ResourceAllocation => "ResourceAllocation"@,
        AllowedSideEffect::NetworkCall => "NetworkCall"@,
        AllowedSideEffect::Routing => "Routing"@,
        AllowedSideEffect::SandboxExecution => "SandboxExecution"@,
    }
}

impl AllowedSideEffect {
    /// The name of the effect, such as `Logging`.
    pub fn name(&self) -> (r: &'static str)
        ensures
            r@ == effect_text(*self),
    {
        match self {
            AllowedSideEffect::Logging => "Logging",
            AllowedSideEffect::Metrics => "Metrics",
            AllowedSideEffect::PayloadModification => "PayloadModification",
            AllowedSideEffect::MetadataModification => "MetadataModification",
            AllowedSideEffect::StateModification => "StateModification",
            AllowedSideEffect::ProcessSpawn => "ProcessSpawn",
            AllowedSideEffect::ResourceAllocation => "ResourceAllocation",
            AllowedSideEffect::NetworkCall => "NetworkCall",
            AllowedSideEffect::Routing => "Routing",
            AllowedSideEffect::SandboxExecution => "SandboxExecution",
        }
    }
}

/// The name of an action, such as `DENY`.
pub open spec fn action_name_text(a: ActionType) -> Seq<char> {
    match a {
        ActionType::Deny(_) => "DENY"@,
        ActionType::Allow(_) => "ALLOW"@,
        ActionType::Rewrite(_) => "REWRITE"@,
        ActionType::Redact(_) => "REDACT"@,
        ActionType::SpawnSidecar(_) => "SPAWN_SIDECAR"@,
        ActionType::RouteTo(_) => "ROUTE_TO"@,
        ActionType::RateLimit(_) => "RATE_LIMIT"@,
        ActionType::Log(_) => "LOG"@,
        ActionType::AttachMetadata(_) => "ATTACH_METADATA"@,
        ActionType::Callback(_) => "CALLBACK"@,
        ActionType::SandboxExecute(_) => "SANDBOX_EXECUTE"@,
    }
}

/// The side effects an action needs, in the order they are checked.
pub open spec fn required_effects(a: ActionType) -> Seq<AllowedSideEffect> {
    match a {
        ActionType::Deny(_) | ActionType::Allow(_) => seq![
            AllowedSideEffect::Logging,
            AllowedSideEffect::Metrics,
        ],
        ActionType::Rewrite(_) | ActionType::Redact(_) => seq![
            AllowedSideEffect::PayloadModification,
            AllowedSideEffect::Logging,
        ],
        ActionType::SpawnSidecar(_) => seq![
            AllowedSideEffect::ProcessSpawn,
            AllowedSideEffect::ResourceAllocation,
            AllowedSideEffect::Logging,
        ],
        ActionType::RouteTo(_) => seq![AllowedSideEffect::Routing, AllowedSideEffect::Logging],
        ActionType::RateLimit(_) => seq![
            AllowedSideEffect::StateModification,
            AllowedSideEffect::Logging,
        ],
        ActionType::Log(_) => seq![AllowedSideEffect::Logging],
        ActionType::AttachMetadata(_) => seq![AllowedSideEffect::MetadataModification],
        ActionType::Callback(_) => seq![AllowedSideEffect::NetworkCall, AllowedSideEffect::Logging],
        ActionType::SandboxExecute(_) => seq![
            AllowedSideEffect::SandboxExecution,
            AllowedSideEffect::ResourceAllocation,
            AllowedSideEffect::Logging,
        ],
    }
}

impl ActionType {
    /// The name of the action, such as `DENY` or `SPAWN_SIDECAR`.
    pub fn name(&self) -> (r: &'static str)
        ensures
            r@ == action_name_text(*self),
    {
        match self {
            ActionType::Deny(_) => "DENY",
            ActionType::Allow(_) => "ALLOW",
            ActionType::Rewrite(_) => "REWRITE",
            ActionType::Redact(_) => "REDACT",
            ActionType::SpawnSidecar(_) => "SPAWN_SIDECAR",
            ActionType::RouteTo(_) => "ROUTE_TO",
            ActionType::RateLimit(_) => "RATE_LIMIT",
            ActionType::Log(_) => "LOG",
            ActionType::AttachMetadata(_) => "ATTACH_METADATA",
            ActionType::Callback(_) => "CALLBACK",
            ActionType::SandboxExecute(_) => "SANDBOX_EXECUTE",
        }
    }

    /// Whether the action needs the control plane's approval: sidecars, sandboxed
    /// execution, callbacks and re-routing.
    pub fn requires_authorization(&self) -> (r: bool)
        ensures
            r == (self is SpawnSidecar || self is SandboxExecute || self is Callback || self is RouteTo),
    {
        match self {
            ActionType::SpawnSidecar(_) | ActionType::SandboxExecute(_) | ActionType::Callback(_)
            | ActionType::RouteTo(_) => true,
            _ => false,
        }
    }

    /// Whether the action changes the payload: rewrites and redactions.
    pub fn modifies_payload(&self) -> (r: bool)
        ensures
            r == (self is Rewrite || self is Redact),
    {
        match self {
            ActionType::Rewrite(_) | ActionType::Redact(_) => true,
            _ => false,
        }
    }

    /// Whether the action blocks the event: denials.
    pub fn is_blocking(&self) -> (r: bool)
        ensures
            r == self is Deny,
    {
        match self {
            ActionType::Deny(_) => true,
            _ => false,
        }
    }

    /// The side effects the action needs.
    pub fn required_side_effects(&self) -> (r: Vec<AllowedSideEffect>)
        ensures
            r@ == required_effects(*self),
    {
        let r = match self {
            ActionType::Deny(_) | ActionType::Allow(_) => vec![
                AllowedSideEffect::Logging,
                AllowedSideEffect::Metrics,
            ],
            ActionType::Rewrite(_) | ActionType::Redact(_) => vec![
                AllowedSideEffect::PayloadModification,
                AllowedSideEffect::Logging,
            ],
            ActionType::SpawnSidecar(_) => vec![
                AllowedSideEffect::ProcessSpawn,
                AllowedSideEffect::ResourceAllocation,
                AllowedSideEffect::Logging,
            ],
            ActionType::RouteTo(_) => vec![AllowedSideEffect::Routing, AllowedSideEffect::Logging],
            ActionType::RateLimit(_) => vec![
                AllowedSideEffect::StateModification,
                AllowedSideEffect::Logging,
            ],
            ActionType::Log(_) => vec![AllowedSideEffect::Logging],
            ActionType::AttachMetadata(_) => vec![AllowedSideEffect::MetadataModification],
            ActionType::Callback(_) => vec![AllowedSideEffect::NetworkCall, AllowedSideEffect::Logging],
            ActionType::SandboxExecute(_) => vec![
                AllowedSideEffect::SandboxExecution,
                AllowedSideEffect::ResourceAllocation,
                AllowedSideEffect::Logging,
            ],
        };
        assert(r@ =~= required_effects(*self));
        r
    }
}

/// The first required effect that is not allowed, if any.
pub open spec fn first_missing(required: Seq<AllowedSideEffect>, allowed: Seq<AllowedSideEffect>) -> Option<AllowedSideEffect>
    decreases required.len(),
{
    if required.len() == 0 {
        None
    } else if !allowed.contains(required[0]) {
        Some(required[0])
    } else {
        first_missing(required.drop_first(), allowed)
    }
}

/// The first action, with its first effect that is not allowed, if any.
pub open spec fn first_unallowed(actions: Seq<ActionType>, allowed: Seq<AllowedSideEffect>) -> Option<(ActionType, AllowedSideEffect)>
    decreases actions.len(),
{
    if actions.len() == 0 {
        None
    } else {
        match first_missing(required_effects(actions[0]), allowed) {
            Some(e) => Some((actions[0], e)),
            None => first_unallowed(actions.drop_first(), allowed),
        }
    }
}

/// Thirty seconds in nanoseconds: the longest time a clause may take.
pub open spec fn max_clause_nanos() -> int {
    30_000_000_000
}

/// The message for an effect the primary action needs but may not cause.
pub open spec fn primary_effect_message(e: AllowedSideEffect) -> Seq<char> {
    "Primary action requires "@ + effect_text(e) + " side effect but it's not allowed"@
}

/// The message for an effect a secondary action needs but may not cause.
pub open spec fn secondary_effect_message(a: ActionType, e: AllowedSideEffect) -> Seq<char> {
    "Secondary action "@ + action_name_text(a) + " requires "@ + effect_text(e)
        + " side effect but it's not allowed"@
}

/// The outcome of validating a clause whose time limit is `nanos` nanoseconds: the
/// primary action's effects, then each secondary action's, then the time limit, then
/// that a denial has no secondary actions.
pub open spec fn validation(
    primary: ActionType,
    secondary: Seq<ActionType>,
    allowed: Seq<AllowedSideEffect>,
    nanos: int,
) -> Result<(), Seq<char>> {
    match first_missing(required_effects(primary), allowed) {
        Some(e) => Err(primary_effect_message(e)),
        None => match first_unallowed(secondary, allowed) {
            Some((a, e)) => Err(secondary_effect_message(a, e)),
            None => if nanos > max_clause_nanos() {
                Err("max_execution_time exceeds 30 seconds"@)
            } else if primary is Deny && secondary.len() > 0 {
                Err("DENY action cannot have secondary actions"@)
            } else {
                Ok(())
            },
        },
    }
}

/// The view of a validation result: its error text.
pub open spec fn result_text(r: Result<(), String>) -> Result<(), Seq<char>> {
    match r {
        Ok(()) => Ok(()),
        Err(s) => Err(s@),
    }
}

/// Default time limit of a clause, in milliseconds.
pub const DEFAULT_CLAUSE_TIME_MS: u64 = 100;

/// The complete action part of a rule.
#[derive(Debug, PartialEq, Eq)]
pub struct ActionClause {
    /// The main action
    pub primary_action: ActionType,
    /// Actions taken after the main one succeeds
    pub secondary_actions: Vec<ActionType>,
    /// Side effects the clause may cause (a set: order and repeats do not matter)
    pub allowed_side_effects: Vec<AllowedSideEffect>,
    /// Time limit for all actions
    pub max_execution_time: Duration,
    /// Undo on failure
    pub rollback_on_failure: bool,
}

impl Clone for ActionClause {
    /// A copy of the clause.
    fn clone(&self) -> (r: Self)
        ensures
            r.allowed_side_effects@ == self.allowed_side_effects@,
            r.max_execution_time == self.max_execution_time,
            r.rollback_on_failure == self.rollback_on_failure,
            r.secondary_actions@.len() == self.secondary_actions@.len(),
    {
        ActionClause {
            primary_action: self.primary_action.clone(),
            secondary_actions: self.secondary_actions.clone(),
            allowed_side_effects: self.allowed_side_effects.clone(),
            max_execution_time: self.max_execution_time,
            rollback_on_failure: self.rollback_on_failure,
        }
    }
}

pub(crate) fn effect_listed(list: &Vec<AllowedSideEffect>, e: AllowedSideEffect) -> (r: bool)
    ensures
        r == list@.contains(e),
{
    let n = list.len();
    let mut i: usize = 0;
    while i < n
        invariant
            n == list@.len(),
            i <= n,
            forall|j: int| 0 <= j < i ==> list@[j] != e,
        decreases n - i,
    {
        if list[i] == e {
            return true;
        }
        i = i + 1;
    }
    false
}

/// Adds an effect to a list, unless it is there.
fn insert_effect(list: &mut Vec<AllowedSideEffect>, e: AllowedSideEffect)
    ensures
        final(list)@.to_set() == old(list)@.to_set().insert(e),
{
    if !effect_listed(list, e) {
        let ghost before = list@;
        list.push(e);
        proof {
            before.lemma_push_to_set_commute(e);
        }
    } else {
        assert(list@.to_set() =~= list@.to_set().insert(e));
    }
}

/// Adds every effect an action needs.
fn insert_required(list: &mut Vec<AllowedSideEffect>, a: &ActionType)
    ensures
        final(list)@.to_set() == old(list)@.to_set().union(required_effects(*a).to_set()),
{
    let req = a.required_side_effects();
    let n = req.len();
    let mut i: usize = 0;
    while i < n
        invariant
            n == req@.len(),
            req@ == required_effects(*a),
            i <= n,
            list@.to_set() == old(list)@.to_set().union(req@.take(i as int).to_set()),
        decreases n - i,
    {
        insert_effect(list, req[i]);
        proof {
            assert(req@.take(i + 1) =~= req@.take(i as int).push(req@[i as int]));
            req@.take(i as int).lemma_push_to_set_commute(req@[i as int]);
            assert(list@.to_set() =~= old(list)@.to_set().union(req@.take(i + 1).to_set()));
        }
        i = i + 1;
    }
    assert(req@.take(n as int) =~= req@);
}

/// Where the allowed effects cover a required list, none is missing.
proof fn lemma_covered_none_missing(required: Seq<AllowedSideEffect>, allowed: Seq<AllowedSideEffect>)
    requires
        forall|k: int| 0 <= k < required.len() ==> allowed.contains(#[trigger] required[k]),
    ensures
        first_missing(required, allowed) is None,
    decreases required.len(),
{
    if required.len() > 0 {
        assert(allowed.contains(required[0]));
        assert forall|k: int| 0 <= k < required.drop_first().len() implies allowed.contains(#[trigger] required.drop_first()[k]) by {
            assert(required.drop_first()[k] == required[k + 1]);
        }
        lemma_covered_none_missing(required.drop_first(), allowed);
    }
}

/// The first missing effect of a list is found by checking the list from `i` on,
/// once the effects before `i` are known to be allowed.
proof fn lemma_first_missing_from(required: Seq<AllowedSideEffect>, allowed: Seq<AllowedSideEffect>, i: int)
    requires
        0 <= i <= required.len(),
        forall|k: int| 0 <= k < i ==> allowed.contains(#[trigger] required[k]),
    ensures
        first_missing(required, allowed) == first_missing(required.subrange(i, required.len() as int), allowed),
    decreases i,
{
    if i > 0 {
        assert(allowed.contains(required[0]));
        let rest = required.drop_first();
        assert forall|k: int| 0 <= k < i - 1 implies allowed.contains(#[trigger] rest[k]) by {
            assert(rest[k] == required[k + 1]);
        }
        lemma_first_missing_from(rest, allowed, i - 1);
        assert(rest.subrange(i - 1, rest.len() as int) =~= required.subrange(i, required.len() as int));
    } else {
        assert(required.subrange(0, required.len() as int) =~= required);
    }
}

/// The first missing effect of a list, in order.
fn find_missing(required: &Vec<AllowedSideEffect>, allowed: &Vec<AllowedSideEffect>) -> (r: Option<AllowedSideEffect>)
    ensures
        r == first_missing(required@, allowed@),
{
    let n = required.len();
    let mut i: usize = 0;
    while i < n
        invariant
            n == required@.len(),
            i <= n,
            forall|k: int| 0 <= k < i ==> allowed@.contains(#[trigger] required@[k]),
        decreases n - i,
    {
        if !effect_listed(allowed, required[i]) {
            proof {
                lemma_first_missing_from(required@, allowed@, i as int);
                let tail = required@.subrange(i as int, required@.len() as int);
                assert(tail[0] == required@[i as int]);
            }
            return Some(required[i]);
        }
        i = i + 1;
    }
    proof {
        lemma_covered_none_missing(required@, allowed@);
    }
    None
}

/// The first action with an unallowed effect is found by checking from `i` on, once
/// the actions before `i` are known to be covered.
proof fn lemma_first_unallowed_from(actions: Seq<ActionType>, allowed: Seq<AllowedSideEffect>, i: int)
    requires
        0 <= i <= actions.len(),
        forall|k: int| 0 <= k < i ==> first_missing(required_effects(#[trigger] actions[k]), allowed) is None,
    ensures
        first_unallowed(actions, allowed) == first_unallowed(actions.subrange(i, actions.len() as int), allowed),
    decreases i,
{
    if i > 0 {
        assert(first_missing(required_effects(actions[0]), allowed) is None);
        let rest = actions.drop_first();
        assert forall|k: int| 0 <= k < i - 1 implies first_missing(required_effects(#[trigger] rest[k]), allowed) is None by {
            assert(rest[k] == actions[k + 1]);
        }
        lemma_first_unallowed_from(rest, allowed, i - 1);
        assert(rest.subrange(i - 1, rest.len() as int) =~= actions.subrange(i, actions.len() as int));
    } else {
        assert(actions.subrange(0, actions.len() as int) =~= actions);
    }
}

/// Where every action is covered, none is unallowed.
proof fn lemma_all_covered(actions: Seq<ActionType>, allowed: Seq<AllowedSideEffect>)
    requires
        forall|k: int| 0 <= k < actions.len() ==> first_missing(required_effects(#[trigger] actions[k]), allowed) is None,
    ensures
        first_unallowed(actions, allowed) is None,
    decreases actions.len(),
{
    if actions.len() > 0 {
        let rest = actions.drop_first();
        assert(first_missing(required_effects(actions[0]), allowed) is None);
        assert forall|k: int| 0 <= k < rest.len() implies first_missing(required_effects(#[trigger] rest[k]), allowed) is None by {
            assert(rest[k] == actions[k + 1]);
        }
        lemma_all_covered(rest, allowed);
    }
}

/// The first secondary action with an effect that is not allowed, and that effect.
fn find_unallowed(actions: &Vec<ActionType>, allowed: &Vec<AllowedSideEffect>) -> (r: Option<(usize, AllowedSideEffect)>)
    ensures
        match r {
            Some((k, e)) => k < actions@.len() && first_unallowed(actions@, allowed@) == Some((actions@[k as int], e)),
            None => first_unallowed(actions@, allowed@) is None,
        },
{
    let n = actions.len();
    let mut i: usize = 0;
    while i < n
        invariant
            n == actions@.len(),
            i <= n,
            forall|k: int| 0 <= k < i ==> first_missing(required_effects(#[trigger] actions@[k]), allowed@) is None,
        decreases n - i,
    {
        let req = actions[i].required_side_effects();
        match find_missing(&req, allowed) {
            Some(e) => {
                proof {
                    lemma_first_unallowed_from(actions@, allowed@, i as int);
                    let tail = actions@.subrange(i as int, actions@.len() as int);
                    assert(tail[0] == actions@[i as int]);
                }
                return Some((i, e));
            },
            None => {},
        }
        i = i + 1;
    }
    proof {
        lemma_all_covered(actions@, allowed@);
    }
    None
}

impl ActionClause {
    /// A clause with one action, allowed exactly the effects it needs, a limit of
    /// 100 ms, and rollback on failure.
    pub fn new(action: ActionType) -> (r: Self)
        ensures
            r.primary_action == action,
            r.secondary_actions@.len() == 0,
            r.allowed_side_effects@ == required_effects(action),
            r.max_execution_time == duration_of_millis(DEFAULT_CLAUSE_TIME_MS),
            r.rollback_on_failure,
    {
        let allowed_side_effects = action.required_side_effects();
        ActionClause {
            primary_action: action,
            secondary_actions: Vec::new(),
            allowed_side_effects,
            max_execution_time: duration_from_millis(DEFAULT_CLAUSE_TIME_MS),
            rollback_on_failure: true,
        }
    }

    /// A builder starting from `ActionClause::new(action)`.
    pub fn builder(action: ActionType) -> (r: ActionClauseBuilder)
        ensures
            r.draft().primary_action == action,
            r.draft().secondary_actions@.len() == 0,
            r.draft().allowed_side_effects@ == required_effects(action),
            r.draft().max_execution_time == duration_of_millis(DEFAULT_CLAUSE_TIME_MS),
            r.draft().rollback_on_failure,
    {
        ActionClauseBuilder::new(action)
    }

    /// Checks the clause: every action's effects are allowed, the time limit is at most
    /// 30 seconds, and a denial has no secondary actions: the outcome is `validation` of
    /// the limit's nanoseconds, which for a limit built from whole seconds or
    /// milliseconds are known.
    pub fn validate(&self) -> (r: Result<(), String>)
        ensures
            result_text(r) == validation(self.primary_action, self.secondary_actions@, self.allowed_side_effects@, duration_nanos(self.max_execution_time) as int),
            forall|m: u64| self.max_execution_time == #[trigger] duration_of_millis(m) ==>
                result_text(r) == validation(self.primary_action, self.secondary_actions@, self.allowed_side_effects@, m * 1_000_000),
            forall|s: u64| self.max_execution_time == #[trigger] duration_of_secs(s) ==>
                result_text(r) == validation(self.primary_action, self.secondary_actions@, self.allowed_side_effects@, s * 1_000_000_000),
    {
        let nanos = duration_as_nanos(self.max_execution_time);
        let r = self.validate_with_nanos(nanos);
        assert(result_text(r) == validation(self.primary_action, self.secondary_actions@, self.allowed_side_effects@, nanos as int));
        r
    }

    fn validate_with_nanos(&self, nanos: u128) -> (r: Result<(), String>)
        ensures
            result_text(r) == validation(self.primary_action, self.secondary_actions@, self.allowed_side_effects@, nanos as int),
    {
        let required = self.primary_action.required_side_effects();
        match find_missing(&required, &self.allowed_side_effects) {
            Some(e) => {
                let mut msg = String::from_str("Primary action requires ");
                msg.append(e.name());
                msg.append(" side effect but it's not allowed");
                proof {
                    assert(msg@ =~= primary_effect_message(e));
                }
                return Err(msg);
            },
            None => {},
        }
        match find_unallowed(&self.secondary_actions, &self.allowed_side_effects) {
            Some((k, e)) => {
                let mut msg = String::from_str("Secondary action ");
                msg.append(self.secondary_actions[k].name());
                msg.append(" requires ");
                msg.append(e.name());
                msg.append(" side effect but it's not allowed");
                proof {
                    assert(msg@ =~= secondary_effect_message(self.secondary_actions@[k as int], e));
                }
                return Err(msg);
            },
            None => {},
        }
        if nanos > 30_000_000_000u128 {
            return Err(String::from_str("max_execution_time exceeds 30 seconds"));
        }
        if self.primary_action.is_blocking() && self.secondary_actions.len() != 0 {
            return Err(String::from_str("DENY action cannot have secondary actions"));
        }
        Ok(())
    }

    /// The primary action, then the secondary ones in order.
    pub fn all_actions(&self) -> (r: Vec<&ActionType>)
        ensures
            r@.len() == self.secondary_actions@.len() + 1,
            *r@[0] == self.primary_action,
            forall|k: int| 0 <= k < self.secondary_actions@.len() ==> *r@[k + 1] == self.secondary_actions@[k],
    {
        let mut r: Vec<&ActionType> = Vec::new();
        r.push(&self.primary_action);
        let n = self.secondary_actions.len();
        let mut i: usize = 0;
        while i < n
            invariant
                n == self.secondary_actions@.len(),
                i <= n,
                r@.len() == i + 1,
                *r@[0] == self.primary_action,
                forall|k: int| 0 <= k < i ==> *r@[k + 1] == self.secondary_actions@[k],
            decreases n - i,
        {
            r.push(&self.secondary_actions[i]);
            i = i + 1;
        }
        r
    }

    /// Whether some action rewrites or redacts the payload.
    pub fn requires_payload(&self) -> (r: bool)
        ensures
            r == ((self.primary_action is Rewrite || self.primary_action is Redact)
                || exists|k: int| 0 <= k < self.secondary_actions@.len()
                    && (#[trigger] self.secondary_actions@[k] is Rewrite || self.secondary_actions@[k] is Redact)),
    {
        if self.primary_action.modifies_payload() {
            return true;
        }
        let n = self.secondary_actions.len();
        let mut i: usize = 0;
        while i < n
            invariant
                n == self.secondary_actions@.len(),
                i <= n,
                forall|k: int| 0 <= k < i ==> !(#[trigger] self.secondary_actions@[k] is Rewrite || self.secondary_actions@[k] is Redact),
            decreases n - i,
        {
            if self.secondary_actions[i].modifies_payload() {
                return true;
            }
            i = i + 1;
        }
        false
    }
}

/// A clause built by `ActionClause::new` passes validation.
pub proof fn lemma_new_clause_is_valid(action: ActionType)
    ensures
        validation(action, Seq::empty(), required_effects(action), DEFAULT_CLAUSE_TIME_MS * 1_000_000) == Ok::<(), Seq<char>>(()),
{
    let req = required_effects(action);
    lemma_covered_none_missing(req, req);
    assert(first_unallowed(Seq::<ActionType>::empty(), req) is None);
}

/// Step-by-step construction of an action clause; `build` validates it.
#[derive(Debug)]
pub struct ActionClauseBuilder {
    draft: ActionClause,
}

impl ActionClauseBuilder {
    /// The clause `build` would check and give now.
    pub closed spec fn draft(&self) -> ActionClause {
        self.draft
    }

    /// A builder starting from `ActionClause::new(action)`.
    pub fn new(action: ActionType) -> (r: Self)
        ensures
            r.draft().primary_action == action,
            r.draft().secondary_actions@.len() == 0,
            r.draft().allowed_side_effects@ == required_effects(action),
            r.draft().max_execution_time == duration_of_millis(DEFAULT_CLAUSE_TIME_MS),
            r.draft().rollback_on_failure,
    {
        ActionClauseBuilder { draft: ActionClause::new(action) }
    }

    /// Appends a secondary action and allows the effects it needs.
    pub fn add_secondary(self, action: ActionType) -> (r: Self)
        ensures
            r.draft().primary_action == self.draft().primary_action,
            r.draft().secondary_actions@ == self.draft().secondary_actions@.push(action),
            r.draft().allowed_side_effects@.to_set() == self.draft().allowed_side_effects@.to_set().union(required_effects(action).to_set()),
            r.draft().max_execution_time == self.draft().max_execution_time,
            r.draft().rollback_on_failure == self.draft().rollback_on_failure,
    {
        let mut b = self;
        insert_required(&mut b.draft.allowed_side_effects, &action);
        b.draft.secondary_actions.push(action);
        b
    }

    /// Replaces the secondary actions and allows the effects each needs.
    pub fn secondary_actions(self, actions: Vec<ActionType>) -> (r: Self)
        ensures
            r.draft().primary_action == self.draft().primary_action,
            r.draft().secondary_actions@ == actions@,
            forall|e: AllowedSideEffect| #[trigger] r.draft().allowed_side_effects@.contains(e) <==>
                (self.draft().allowed_side_effects@.contains(e)
                    || exists|k: int| 0 <= k < actions@.len() && required_effects(#[trigger] actions@[k]).contains(e)),
            r.draft().max_execution_time == self.draft().max_execution_time,
            r.draft().rollback_on_failure == self.draft().rollback_on_failure,
    {
        let mut b = self;
        let n = actions.len();
        let mut i: usize = 0;
        while i < n
            invariant
                n == actions@.len(),
                i <= n,
                b.draft().primary_action == self.draft().primary_action,
                b.draft().secondary_actions == self.draft().secondary_actions,
                b.draft().max_execution_time == self.draft().max_execution_time,
                b.draft().rollback_on_failure == self.draft().rollback_on_failure,
                forall|e: AllowedSideEffect| #[trigger] b.draft().allowed_side_effects@.contains(e) <==>
                    (self.draft().allowed_side_effects@.contains(e)
                        || exists|k: int| 0 <= k < i && required_effects(#[trigger] actions@[k]).contains(e)),
            decreases n - i,
        {
            let ghost before = b.draft().allowed_side_effects@;
            insert_required(&mut b.draft.allowed_side_effects, &actions[i]);
            proof {
                assert forall|e: AllowedSideEffect| #[trigger] b.draft().allowed_side_effects@.contains(e) <==>
                    (self.draft().allowed_side_effects@.contains(e)
                        || exists|k: int| 0 <= k < i + 1 && required_effects(#[trigger] actions@[k]).contains(e)) by {
                    assert(b.draft().allowed_side_effects@.to_set().contains(e) == b.draft().allowed_side_effects@.contains(e));
                    assert(before.to_set().contains(e) == before.contains(e));
                    assert(required_effects(actions@[i as int]).to_set().contains(e) == required_effects(actions@[i as int]).contains(e));
                    if required_effects(actions@[i as int]).contains(e) {
                        assert(0 <= i < i + 1 && required_effects(actions@[i as int]).contains(e));
                    }
                    if exists|k: int| 0 <= k < i + 1 && required_effects(#[trigger] actions@[k]).contains(e) {
                        let k = choose|k: int| 0 <= k < i + 1 && required_effects(#[trigger] actions@[k]).contains(e);
                        if k < i {
                            assert(exists|k2: int| 0 <= k2 < i && required_effects(#[trigger] actions@[k2]).contains(e));
                        }
                    }
                }
            }
            i = i + 1;
        }
        b.draft.secondary_actions = actions;
        b
    }

    /// Allows one more side effect.
    pub fn allow_side_effect(self, effect: AllowedSideEffect) -> (r: Self)
        ensures
            r.draft().primary_action == self.draft().primary_action,
            r.draft().secondary_actions == self.draft().secondary_actions,
            r.draft().allowed_side_effects@.to_set() == self.draft().allowed_side_effects@.to_set().insert(effect),
            r.draft().max_execution_time == self.draft().max_execution_time,
            r.draft().rollback_on_failure == self.draft().rollback_on_failure,
    {
        let mut b = self;
        insert_effect(&mut b.draft.allowed_side_effects, effect);
        b
    }

    /// Replaces the allowed side effects.
    pub fn allowed_side_effects(self, effects: Vec<AllowedSideEffect>) -> (r: Self)
        ensures
            r.draft() == (ActionClause { allowed_side_effects: effects, ..self.draft() }),
    {
        let mut b = self;
        b.draft.allowed_side_effects = effects;
        b
    }

    /// Sets the time limit.
    pub fn max_execution_time(self, duration: Duration) -> (r: Self)
        ensures
            r.draft() == (ActionClause { max_execution_time: duration, ..self.draft() }),
    {
        let mut b = self;
        b.draft.max_execution_time = duration;
        b
    }

    /// Sets whether to undo on failure.
    pub fn rollback_on_failure(self, rollback: bool) -> (r: Self)
        ensures
            r.draft() == (ActionClause { rollback_on_failure: rollback, ..self.draft() }),
    {
        let mut b = self;
        b.draft.rollback_on_failure = rollback;
        b
    }

    /// The clause if it passes `validate`, else the validation error.
    pub fn build(self) -> (r: Result<ActionClause, String>)
        ensures
            match r {
                Ok(c) => c == self.draft(),
                Err(_) => true,
            },
            result_text(match r {
                Ok(_) => Ok::<(), String>(()),
                Err(e) => Err(e),
            }) == validation(self.draft().primary_action, self.draft().secondary_actions@, self.draft().allowed_side_effects@, duration_nanos(self.draft().max_execution_time) as int),
            forall|m: u64| self.draft().max_execution_time == #[trigger] duration_of_millis(m) ==>
                (r is Ok <==> validation(self.draft().primary_action, self.draft().secondary_actions@, self.draft().allowed_side_effects@, m * 1_000_000) is Ok),
            forall|m: u64| self.draft().max_execution_time == #[trigger] duration_of_millis(m) ==>
                match r {
                    Err(msg) => validation(self.draft().primary_action, self.draft().secondary_actions@, self.draft().allowed_side_effects@, m * 1_000_000) == Err::<(), Seq<char>>(msg@),
                    Ok(_) => true,
                },
            forall|s: u64| self.draft().max_execution_time == #[trigger] duration_of_secs(s) ==>
                (r is Ok <==> validation(self.draft().primary_action, self.draft().secondary_actions@, self.draft().allowed_side_effects@, s * 1_000_000_000) is Ok),
            forall|s: u64| self.draft().max_execution_time == #[trigger] duration_of_secs(s) ==>
                match r {
                    Err(msg) => validation(self.draft().primary_action, self.draft().secondary_actions@, self.draft().allowed_side_effects@, s * 1_000_000_000) == Err::<(), Seq<char>>(msg@),
                    Ok(_) => true,
                },
    {
        let clause = self.draft;
        match clause.validate() {
            Ok(()) => Ok(clause),
            Err(e) => Err(e),
        }
    }
}

/// What running an action works with: the event's agents and flow, its payload and
/// metadata (which the action may change), and the time left.
#[derive(Debug)]
pub struct ActionContext<'a> {
    /// The rule whose action runs
    pub rule_id: &'a RuleId,
    /// The rule's version
    pub rule_version: u64,
    /// Source agent
    pub source_agent: &'a AgentId,
    /// Destination agent, if any
    pub dest_agent: Option<&'a AgentId>,
    /// Flow, if any
    pub flow_id: Option<&'a FlowId>,
    /// The payload, which the action may change
    pub payload: Option<&'a mut Vec<u8>>,
    /// The metadata, which the action may change
    pub metadata: &'a mut HashMap<String, String>,
    /// Time left to run in
    pub time_budget: Duration,
}

/// The outcome of running an action.
#[derive(Debug, Clone, PartialEq, Eq)]
pub enum ActionResult {
    /// The action succeeded
    Success { message: String, payload_modified: bool, metadata_modified: bool },
    /// The action denied the event
    Denied { reason: String, error_code: String },
    /// The action failed
    Failed { error: String, retryable: bool },
    /// The action ran out of time
    Timeout { elapsed: Duration },
    /// The action was skipped
    Skipped { reason: String },
}

impl ActionResult {
    /// Whether the action succeeded.
    pub fn is_success(&self) -> (r: bool)
        ensures
            r == self is Success,
    {
        match self {
            ActionResult::Success { .. } => true,
            _ => false,
        }
    }

    /// Whether the action denied the event.
    pub fn is_denied(&self) -> (r: bool)
        ensures
            r == self is Denied,
    {
        match self {
            ActionResult::Denied { .. } => true,
            _ => false,
        }
    }

    /// Whether the action failed.
    pub fn is_failed(&self) -> (r: bool)
        ensures
            r == self is Failed,
    {
        match self {
            ActionResult::Failed { .. } => true,
            _ => false,
        }
    }

    /// Whether the event must be blocked: a denial, or a failure that cannot be retried.
    pub fn should_block(&self) -> (r: bool)
        ensures
            r == (self is Denied || (self matches ActionResult::Failed { retryable, .. } && retryable == false)),
    {
        match self {
            ActionResult::Denied { .. } => true,
            ActionResult::Failed { retryable, .. } => !*retryable,
            _ => false,
        }
    }
}

} // verus!

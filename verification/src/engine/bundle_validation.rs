//! The bundle validator's checks over what it reads of each rule: identifiers,
//! priorities, scopes, constraint settings, side effects, pairwise conflicts and the
//! signature.
use vstd::prelude::*;
use vstd::string::*;
use vstd::utf8::encode_utf8;
use crate::engine::action_clause::{ActionType, AllowedSideEffect};
use crate::engine::execution_constraints::{config_error, constraint_config_error};
use crate::engine::rule_bundle::{BundleValidator, ValidationError, ValidationResult, ValidationWarning};
use crate::engine::rule_metadata::{agent_texts, agents_contain, flow_texts, flows_contain, AgentId, FlowId, RuleScope};
use crate::text::{owned, str_eq};

verus! {

/// What the bundle validator reads of one rule.
pub struct RuleFacts {
    /// The rule's identifier, as text
    pub rule_id: String,
    /// Its priority
    pub priority: i32,
    /// Its scope
    pub scope: RuleScope,
    /// The digest of its hook module, if it has a hook
    pub wasm_digest: Option<String>,
    /// Its primary action
    pub primary_action: ActionType,
    /// Time limit of its constraints, in milliseconds
    pub max_exec_ms: u64,
    /// CPU shares of its constraints
    pub cpu_shares: Option<u32>,
    /// Memory limit of its constraints, in bytes
    pub memory_limit_bytes: Option<u64>,
    /// Whether the sampling rate of its constraints lies in [0, 1]
    pub sampling_rate_in_range: bool,
    /// Retries allowed by its constraints
    pub max_retries: Option<u32>,
}

/// A validation error, its texts taken as character sequences.
pub enum ErrView {
    EmptyBundle,
    DuplicateRuleId(Seq<char>),
    InvalidRuleId(Seq<char>),
    InvalidBundleId(Seq<char>),
    InvalidPriority { rule_id: Seq<char>, priority: i32 },
    PriorityConflict { rule_id1: Seq<char>, rule_id2: Seq<char>, priority: i32 },
    InvalidScope(Seq<char>),
    InvalidConstraint { rule_id: Seq<char>, reason: Seq<char> },
    InvalidWasmHook { rule_id: Seq<char>, reason: Seq<char> },
    InvalidActionParams { rule_id: Seq<char>, reason: Seq<char> },
    DisallowedSideEffect { rule_id: Seq<char>, side_effect: Seq<char> },
    SignatureVerificationFailed(Seq<char>),
    InvalidRolloutPolicy(Seq<char>),
    SchemaValidationFailed(Seq<char>),
    RuleConflict { rule_id1: Seq<char>, rule_id2: Seq<char>, reason: Seq<char> },
}

/// A validation warning, its texts taken as character sequences.
pub enum WarnView {
    HighPriority { rule_id: Seq<char>, priority: i32 },
    LargeBundle { rule_count: usize },
    ComplexMatchExpression { rule_id: Seq<char> },
    HighMemoryConstraint { rule_id: Seq<char>, limit_mb: u64 },
    LongTimeout { rule_id: Seq<char>, timeout_ms: u64 },
    NoRolloutPolicy,
    OverlappingScopes { rule_id1: Seq<char>, rule_id2: Seq<char> },
}

/// The view of an error.
pub open spec fn err_view(e: ValidationError) -> ErrView {
    match e {
        ValidationError::EmptyBundle => ErrView::EmptyBundle,
        ValidationError::DuplicateRuleId(s) => ErrView::DuplicateRuleId(s@),
        ValidationError::InvalidRuleId(s) => ErrView::InvalidRuleId(s@),
        ValidationError::InvalidBundleId(s) => ErrView::InvalidBundleId(s@),
        ValidationError::InvalidPriority { rule_id, priority } => ErrView::InvalidPriority { rule_id: rule_id@, priority },
        ValidationError::PriorityConflict { rule_id1, rule_id2, priority } => ErrView::PriorityConflict {
            rule_id1: rule_id1@,
            rule_id2: rule_id2@,
            priority,
        },
        ValidationError::InvalidScope(s) => ErrView::InvalidScope(s@),
        ValidationError::InvalidConstraint { rule_id, reason } => ErrView::InvalidConstraint { rule_id: rule_id@, reason: reason@ },
        ValidationError::InvalidWasmHook { rule_id, reason } => ErrView::InvalidWasmHook { rule_id: rule_id@, reason: reason@ },
        ValidationError::InvalidActionParams { rule_id, reason } => ErrView::InvalidActionParams { rule_id: rule_id@, reason: reason@ },
        ValidationError::DisallowedSideEffect { rule_id, side_effect } => ErrView::DisallowedSideEffect {
            rule_id: rule_id@,
            side_effect: side_effect@,
        },
        ValidationError::SignatureVerificationFailed(s) => ErrView::SignatureVerificationFailed(s@),
        ValidationError::InvalidRolloutPolicy(s) => ErrView::InvalidRolloutPolicy(s@),
        ValidationError::SchemaValidationFailed(s) => ErrView::SchemaValidationFailed(s@),
        ValidationError::RuleConflict { rule_id1, rule_id2, reason } => ErrView::RuleConflict {
            rule_id1: rule_id1@,
            rule_id2: rule_id2@,
            reason: reason@,
        },
    }
}

/// The view of a warning.
pub open spec fn warn_view(w: ValidationWarning) -> WarnView {
    match w {
        ValidationWarning::HighPriority { rule_id, priority } => WarnView::HighPriority { rule_id: rule_id@, priority },
        ValidationWarning::LargeBundle { rule_count } => WarnView::LargeBundle { rule_count },
        ValidationWarning::ComplexMatchExpression { rule_id } => WarnView::ComplexMatchExpression { rule_id: rule_id@ },
        ValidationWarning::HighMemoryConstraint { rule_id, limit_mb } => WarnView::HighMemoryConstraint { rule_id: rule_id@, limit_mb },
        ValidationWarning::LongTimeout { rule_id, timeout_ms } => WarnView::LongTimeout { rule_id: rule_id@, timeout_ms },
        ValidationWarning::NoRolloutPolicy => WarnView::NoRolloutPolicy,
        ValidationWarning::OverlappingScopes { rule_id1, rule_id2 } => WarnView::OverlappingScopes {
            rule_id1: rule_id1@,
            rule_id2: rule_id2@,
        },
    }
}

/// The errors of a result, as views.
pub open spec fn errs(r: ValidationResult) -> Seq<ErrView> {
    r.errors@.map_values(|e: ValidationError| err_view(e))
}

/// The warnings of a result, as views.
pub open spec fn warns(r: ValidationResult) -> Seq<WarnView> {
    r.warnings@.map_values(|w: ValidationWarning| warn_view(w))
}

/// The pieces `f(lo)`, ..., `f(hi - 1)`, one after the other.
pub open spec fn concat_range<T>(lo: int, hi: int, f: spec_fn(int) -> Seq<T>) -> Seq<T>
    decreases hi - lo,
{
    if hi <= lo {
        Seq::empty()
    } else {
        concat_range(lo, hi - 1, f) + f(hi - 1)
    }
}

/// The identifier of rule `k`.
pub open spec fn fid(s: Seq<RuleFacts>, k: int) -> Seq<char> {
    s[k].rule_id@
}

/// Some earlier rule has the identifier of rule `k`.
pub open spec fn dup_before(s: Seq<RuleFacts>, k: int) -> bool {
    exists|j: int| 0 <= j < k && #[trigger] fid(s, j) == fid(s, k)
}

/// The identifier errors of rule `k`: a repeated identifier (and nothing more), or an
/// empty identifier and an empty hook digest.
pub open spec fn id_errors(s: Seq<RuleFacts>, k: int) -> Seq<ErrView> {
    if dup_before(s, k) {
        seq![ErrView::DuplicateRuleId(fid(s, k))]
    } else {
        (if fid(s, k).len() == 0 {
            seq![ErrView::InvalidRuleId("Rule ID cannot be empty"@)]
        } else {
            Seq::empty()
        }) + (if s[k].wasm_digest matches Some(d) && d@.len() == 0 {
            seq![ErrView::InvalidWasmHook { rule_id: fid(s, k), reason: "Empty WASM digest"@ }]
        } else {
            Seq::empty()
        })
    }
}

/// The first rule from `start` on with priority `p`, or -1.
pub open spec fn first_with_priority(s: Seq<RuleFacts>, p: i32, start: int) -> int
    decreases s.len() - start,
{
    if start < 0 || start >= s.len() {
        -1
    } else if s[start].priority == p {
        start
    } else {
        first_with_priority(s, p, start + 1)
    }
}

/// The priority errors of rule `k`: above the maximum (as the maximum reads as an
/// `i32`).
pub open spec fn priority_errors(s: Seq<RuleFacts>, max_priority: u32, k: int) -> Seq<ErrView> {
    if s[k].priority > (max_priority as i32) {
        seq![ErrView::InvalidPriority { rule_id: fid(s, k), priority: s[k].priority }]
    } else {
        Seq::empty()
    }
}

/// The priority warning of rule `k`: above 1000.
pub open spec fn priority_warnings(s: Seq<RuleFacts>, k: int) -> Seq<WarnView> {
    if s[k].priority > 1000 {
        seq![WarnView::HighPriority { rule_id: fid(s, k), priority: s[k].priority }]
    } else {
        Seq::empty()
    }
}

/// The conflict reported for the priority of rule `k`, when `k` is the first rule with
/// it and another follows: the first two rules with that priority.
pub open spec fn priority_conflicts(s: Seq<RuleFacts>, k: int) -> Seq<ErrView> {
    let p = s[k].priority;
    let j = first_with_priority(s, p, k + 1);
    if first_with_priority(s, p, 0) == k && j >= 0 {
        seq![ErrView::PriorityConflict { rule_id1: fid(s, k), rule_id2: fid(s, j), priority: p }]
    } else {
        Seq::empty()
    }
}

/// The scope error of rule `k`: it is not global and names no agent and no flow.
pub open spec fn scope_errors(s: Seq<RuleFacts>, k: int) -> Seq<ErrView> {
    if !s[k].scope.is_global && s[k].scope.agent_ids@.len() == 0 && s[k].scope.flow_ids@.len() == 0 {
        seq![ErrView::InvalidScope("Rule "@ + fid(s, k) + " has empty scope"@)]
    } else {
        Seq::empty()
    }
}

/// Two scopes overlap: their agents are the same or either names none, and likewise
/// their flows.
pub open spec fn scopes_overlap(a: RuleScope, b: RuleScope) -> bool {
    &&& (agent_texts(a.agent_ids@).to_set() == agent_texts(b.agent_ids@).to_set() || a.agent_ids@.len() == 0
        || b.agent_ids@.len() == 0)
    &&& (flow_texts(a.flow_ids@).to_set() == flow_texts(b.flow_ids@).to_set() || a.flow_ids@.len() == 0
        || b.flow_ids@.len() == 0)
}

/// The overlap warning of the pair `(i, j)`.
pub open spec fn overlap_warning(s: Seq<RuleFacts>, i: int, j: int) -> Seq<WarnView> {
    if scopes_overlap(s[i].scope, s[j].scope) {
        seq![WarnView::OverlappingScopes { rule_id1: fid(s, i), rule_id2: fid(s, j) }]
    } else {
        Seq::empty()
    }
}

/// The overlap warnings of the pairs `(i, j)`, by `j`.
pub open spec fn overlap_fn(s: Seq<RuleFacts>, i: int) -> spec_fn(int) -> Seq<WarnView> {
    |j: int| overlap_warning(s, i, j)
}

/// The overlap warnings of rule `i` with each later rule.
pub open spec fn overlap_warnings(s: Seq<RuleFacts>, i: int) -> Seq<WarnView> {
    concat_range(i + 1, s.len() as int, overlap_fn(s, i))
}

/// The constraint error of rule `k`.
pub open spec fn constraint_errors(s: Seq<RuleFacts>, k: int) -> Seq<ErrView> {
    match config_error(s[k].max_exec_ms, s[k].cpu_shares, s[k].sampling_rate_in_range, s[k].max_retries) {
        Some(m) => seq![ErrView::InvalidConstraint { rule_id: fid(s, k), reason: "Invalid constraint configuration: "@ + m }],
        None => Seq::empty(),
    }
}

/// The constraint warnings of rule `k`: memory above 100 MiB, then a time limit above
/// one second.
pub open spec fn constraint_warnings(s: Seq<RuleFacts>, k: int) -> Seq<WarnView> {
    (match s[k].memory_limit_bytes {
        Some(l) => if l / 1048576 > 100 {
            seq![WarnView::HighMemoryConstraint { rule_id: fid(s, k), limit_mb: l / 1048576 }]
        } else {
            Seq::empty()
        },
        None => Seq::empty(),
    }) + (if s[k].max_exec_ms > 1000 {
        seq![WarnView::LongTimeout { rule_id: fid(s, k), timeout_ms: s[k].max_exec_ms }]
    } else {
        Seq::empty()
    })
}

/// The side-effect error of rule `k`: a sidecar without process spawning allowed, or a
/// callback without network calls allowed.
pub open spec fn side_effect_errors(s: Seq<RuleFacts>, allowed: Seq<AllowedSideEffect>, k: int) -> Seq<ErrView> {
    if s[k].primary_action is SpawnSidecar && !allowed.contains(AllowedSideEffect::ProcessSpawn) {
        seq![ErrView::DisallowedSideEffect { rule_id: fid(s, k), side_effect: "SpawnSidecar"@ }]
    } else if s[k].primary_action is Callback && !allowed.contains(AllowedSideEffect::NetworkCall) {
        seq![ErrView::DisallowedSideEffect { rule_id: fid(s, k), side_effect: "Callback"@ }]
    } else {
        Seq::empty()
    }
}

/// The conflict error of the pair `(i, j)`: overlapping scopes and equal priorities.
pub open spec fn pair_conflict(s: Seq<RuleFacts>, i: int, j: int) -> Seq<ErrView> {
    if scopes_overlap(s[i].scope, s[j].scope) && s[i].priority == s[j].priority {
        seq![ErrView::RuleConflict {
            rule_id1: fid(s, i),
            rule_id2: fid(s, j),
            reason: "Same priority with overlapping scopes"@,
        }]
    } else {
        Seq::empty()
    }
}

/// The conflict errors of the pairs `(i, j)`, by `j`.
pub open spec fn pair_fn(s: Seq<RuleFacts>, i: int) -> spec_fn(int) -> Seq<ErrView> {
    |j: int| pair_conflict(s, i, j)
}

/// The conflict errors of rule `i` with each later rule.
pub open spec fn pair_conflicts(s: Seq<RuleFacts>, i: int) -> Seq<ErrView> {
    concat_range(i + 1, s.len() as int, pair_fn(s, i))
}

/// The signature error: when signatures are required, a missing one, or one shorter
/// than 64 bytes.
pub open spec fn signature_errors(required: bool, signature: Option<Seq<char>>) -> Seq<ErrView> {
    if !required {
        Seq::empty()
    } else {
        match signature {
            None => seq![ErrView::SignatureVerificationFailed("No signature present"@)],
            Some(sig) => if (encode_utf8(sig).len() as usize) < 64 {
                seq![ErrView::SignatureVerificationFailed("Invalid signature format"@)]
            } else {
                Seq::empty()
            },
        }
    }
}

/// The per-rule identifier errors, by rule.
pub open spec fn id_fn(s: Seq<RuleFacts>) -> spec_fn(int) -> Seq<ErrView> {
    |k: int| id_errors(s, k)
}

/// The per-rule priority errors, by rule.
pub open spec fn priority_fn(s: Seq<RuleFacts>, max_priority: u32) -> spec_fn(int) -> Seq<ErrView> {
    |k: int| priority_errors(s, max_priority, k)
}

/// The per-rule priority warnings, by rule.
pub open spec fn priority_warn_fn(s: Seq<RuleFacts>) -> spec_fn(int) -> Seq<WarnView> {
    |k: int| priority_warnings(s, k)
}

/// The priority conflicts, by rule.
pub open spec fn conflict_fn(s: Seq<RuleFacts>) -> spec_fn(int) -> Seq<ErrView> {
    |k: int| priority_conflicts(s, k)
}

/// The scope errors, by rule.
pub open spec fn scope_fn(s: Seq<RuleFacts>) -> spec_fn(int) -> Seq<ErrView> {
    |k: int| scope_errors(s, k)
}

/// The overlap warnings, by first rule of the pair.
pub open spec fn overlaps_fn(s: Seq<RuleFacts>) -> spec_fn(int) -> Seq<WarnView> {
    |i: int| overlap_warnings(s, i)
}

/// The constraint errors, by rule.
pub open spec fn constraint_fn(s: Seq<RuleFacts>) -> spec_fn(int) -> Seq<ErrView> {
    |k: int| constraint_errors(s, k)
}

/// The constraint warnings, by rule.
pub open spec fn constraint_warn_fn(s: Seq<RuleFacts>) -> spec_fn(int) -> Seq<WarnView> {
    |k: int| constraint_warnings(s, k)
}

/// The side-effect errors, by rule.
pub open spec fn side_effect_fn(s: Seq<RuleFacts>, allowed: Seq<AllowedSideEffect>) -> spec_fn(int) -> Seq<ErrView> {
    |k: int| side_effect_errors(s, allowed, k)
}

/// The pairwise conflicts, by first rule of the pair.
pub open spec fn pairs_fn(s: Seq<RuleFacts>) -> spec_fn(int) -> Seq<ErrView> {
    |i: int| pair_conflicts(s, i)
}

/// Every error the validator reports for a bundle, in the order it checks: the bundle
/// as a whole, identifiers, priorities, priority conflicts, scopes, constraints, side
/// effects, pairwise conflicts, signature.
pub open spec fn expected_errors(
    bundle_id: Seq<char>,
    s: Seq<RuleFacts>,
    max_priority: u32,
    allowed: Seq<AllowedSideEffect>,
    require_signatures: bool,
    signature: Option<Seq<char>>,
) -> Seq<ErrView> {
    let n = s.len() as int;
    (if s.len() == 0 { seq![ErrView::EmptyBundle] } else { Seq::empty() })
        + (if bundle_id.len() == 0 { seq![ErrView::InvalidBundleId("Bundle ID Cannot be empty"@)] } else { Seq::empty() })
        + concat_range(0, n, id_fn(s)) + concat_range(0, n, priority_fn(s, max_priority))
        + concat_range(0, n, conflict_fn(s)) + concat_range(0, n, scope_fn(s))
        + concat_range(0, n, constraint_fn(s)) + concat_range(0, n, side_effect_fn(s, allowed))
        + concat_range(0, n, pairs_fn(s)) + signature_errors(require_signatures, signature)
}

/// Every warning the validator reports for a bundle, in order: size, priorities,
/// overlapping scopes, constraints.
pub open spec fn expected_warnings(s: Seq<RuleFacts>, max_rules: usize) -> Seq<WarnView> {
    let n = s.len() as int;
    (if s.len() > max_rules { seq![WarnView::LargeBundle { rule_count: s.len() as usize }] } else { Seq::empty() })
        + concat_range(0, n, priority_warn_fn(s)) + concat_range(0, n, overlaps_fn(s))
        + concat_range(0, n, constraint_warn_fn(s))
}

fn push_err(r: &mut ValidationResult, e: ValidationError)
    ensures
        errs(*final(r)) == errs(*old(r)).push(err_view(e)),
        warns(*final(r)) == warns(*old(r)),
        final(r).wf(),
{
    r.add_error(e);
    proof {
        assert(errs(*r) =~= errs(*old(r)).push(err_view(e)));
        assert(warns(*r) =~= warns(*old(r)));
    }
}

fn push_warn(r: &mut ValidationResult, w: ValidationWarning)
    ensures
        errs(*final(r)) == errs(*old(r)),
        warns(*final(r)) == warns(*old(r)).push(warn_view(w)),
        old(r).wf() ==> final(r).wf(),
{
    r.add_warning(w);
    proof {
        assert(errs(*r) =~= errs(*old(r)));
        assert(warns(*r) =~= warns(*old(r)).push(warn_view(w)));
    }
}

fn seen_before(facts: &Vec<RuleFacts>, k: usize) -> (r: bool)
    requires
        k < facts@.len(),
    ensures
        r == dup_before(facts@, k as int),
{
    let mut j: usize = 0;
    while j < k
        invariant
            k < facts@.len(),
            j <= k,
            forall|m: int| 0 <= m < j ==> #[trigger] fid(facts@, m) != fid(facts@, k as int),
        decreases k - j,
    {
        if str_eq(facts[j].rule_id.as_str(), facts[k].rule_id.as_str()) {
            assert(fid(facts@, j as int) == fid(facts@, k as int));
            return true;
        }
        j = j + 1;
    }
    false
}

fn first_with_prio(facts: &Vec<RuleFacts>, p: i32, start: usize) -> (r: Option<usize>)
    requires
        start <= facts@.len(),
    ensures
        match r {
            Some(j) => first_with_priority(facts@, p, start as int) == j && start <= j < facts@.len(),
            None => first_with_priority(facts@, p, start as int) == -1,
        },
{
    let n = facts.len();
    let mut i: usize = start;
    while i < n
        invariant
            n == facts@.len(),
            start <= i <= n,
            first_with_priority(facts@, p, start as int) == first_with_priority(facts@, p, i as int),
        decreases n - i,
    {
        if facts[i].priority == p {
            return Some(i);
        }
        i = i + 1;
    }
    None
}

fn agents_within(a: &Vec<AgentId>, b: &Vec<AgentId>) -> (r: bool)
    ensures
        r == (forall|i: int| 0 <= i < a@.len() ==> agent_texts(b@).contains(#[trigger] a@[i]@)),
{
    let n = a.len();
    let mut i: usize = 0;
    while i < n
        invariant
            n == a@.len(),
            i <= n,
            forall|m: int| 0 <= m < i ==> agent_texts(b@).contains(#[trigger] a@[m]@),
        decreases n - i,
    {
        if !agents_contain(b, a[i].as_str()) {
            return false;
        }
        i = i + 1;
    }
    true
}

fn flows_within(a: &Vec<FlowId>, b: &Vec<FlowId>) -> (r: bool)
    ensures
        r == (forall|i: int| 0 <= i < a@.len() ==> flow_texts(b@).contains(#[trigger] a@[i]@)),
{
    let n = a.len();
    let mut i: usize = 0;
    while i < n
        invariant
            n == a@.len(),
            i <= n,
            forall|m: int| 0 <= m < i ==> flow_texts(b@).contains(#[trigger] a@[m]@),
        decreases n - i,
    {
        if !flows_contain(b, a[i].as_str()) {
            return false;
        }
        i = i + 1;
    }
    true
}

proof fn lemma_text_sets_equal(a: Seq<Seq<char>>, b: Seq<Seq<char>>)
    ensures
        (a.to_set() == b.to_set()) == ((forall|i: int| 0 <= i < a.len() ==> b.contains(#[trigger] a[i]))
            && (forall|i: int| 0 <= i < b.len() ==> a.contains(#[trigger] b[i]))),
{
    if (forall|i: int| 0 <= i < a.len() ==> b.contains(#[trigger] a[i])) && (forall|i: int| 0 <= i < b.len() ==> a.contains(#[trigger] b[i])) {
        assert forall|x: Seq<char>| a.to_set().contains(x) <==> b.to_set().contains(x) by {
            if a.contains(x) {
                let k = choose|k: int| 0 <= k < a.len() && a[k] == x;
                assert(b.contains(a[k]));
            }
            if b.contains(x) {
                let k = choose|k: int| 0 <= k < b.len() && b[k] == x;
                assert(a.contains(b[k]));
            }
        }
        assert(a.to_set() =~= b.to_set());
    } else if a.to_set() == b.to_set() {
        assert forall|i: int| 0 <= i < a.len() implies b.contains(#[trigger] a[i]) by {
            assert(a.to_set().contains(a[i]));
            assert(b.to_set().contains(a[i]));
        }
        assert forall|i: int| 0 <= i < b.len() implies a.contains(#[trigger] b[i]) by {
            assert(b.to_set().contains(b[i]));
            assert(a.to_set().contains(b[i]));
        }
    }
}

fn scopes_overlap_exec(a: &RuleScope, b: &RuleScope) -> (r: bool)
    ensures
        r == scopes_overlap(*a, *b),
{
    proof {
        lemma_text_sets_equal(agent_texts(a.agent_ids@), agent_texts(b.agent_ids@));
        lemma_text_sets_equal(flow_texts(a.flow_ids@), flow_texts(b.flow_ids@));
        assert forall|i: int| 0 <= i < a.agent_ids@.len() implies agent_texts(a.agent_ids@)[i] == (#[trigger] a.agent_ids@[i])@ by {}
        assert forall|i: int| 0 <= i < b.agent_ids@.len() implies agent_texts(b.agent_ids@)[i] == (#[trigger] b.agent_ids@[i])@ by {}
        assert forall|i: int| 0 <= i < a.flow_ids@.len() implies flow_texts(a.flow_ids@)[i] == (#[trigger] a.flow_ids@[i])@ by {}
        assert forall|i: int| 0 <= i < b.flow_ids@.len() implies flow_texts(b.flow_ids@)[i] == (#[trigger] b.flow_ids@[i])@ by {}
    }
    let agents_ok = a.agent_ids.len() == 0 || b.agent_ids.len() == 0
        || (agents_within(&a.agent_ids, &b.agent_ids) && agents_within(&b.agent_ids, &a.agent_ids));
    let flows_ok = a.flow_ids.len() == 0 || b.flow_ids.len() == 0
        || (flows_within(&a.flow_ids, &b.flow_ids) && flows_within(&b.flow_ids, &a.flow_ids));
    agents_ok && flows_ok
}

fn check_ids(facts: &Vec<RuleFacts>, r: &mut ValidationResult)
    requires
        old(r).wf(),
    ensures
        final(r).wf(),
        errs(*final(r)) == errs(*old(r)) + concat_range(0, facts@.len() as int, id_fn(facts@)),
        warns(*final(r)) == warns(*old(r)),
{
    let n = facts.len();
    let mut k: usize = 0;
    while k < n
        invariant
            n == facts@.len(),
            k <= n,
            r.wf(),
            errs(*r) == errs(*old(r)) + concat_range(0, k as int, id_fn(facts@)),
            warns(*r) == warns(*old(r)),
        decreases n - k,
    {
        let ghost before = errs(*r);
        let ghost s = facts@;
        if seen_before(facts, k) {
            push_err(r, ValidationError::DuplicateRuleId(facts[k].rule_id.clone()));
        } else {
            if facts[k].rule_id.as_str().unicode_len() == 0 {
                push_err(r, ValidationError::InvalidRuleId(String::from_str("Rule ID cannot be empty")));
            }
            match &facts[k].wasm_digest {
                Some(d) => {
                    if d.as_str().unicode_len() == 0 {
                        push_err(r, ValidationError::InvalidWasmHook {
                            rule_id: facts[k].rule_id.clone(),
                            reason: String::from_str("Empty WASM digest"),
                        });
                    }
                },
                None => {},
            }
        }
        proof {
            assert(errs(*r) =~= before + id_errors(s, k as int));
        }
        k = k + 1;
    }
}

fn check_priorities(facts: &Vec<RuleFacts>, max_priority: u32, r: &mut ValidationResult)
    requires
        old(r).wf(),
    ensures
        final(r).wf(),
        errs(*final(r)) == errs(*old(r)) + concat_range(0, facts@.len() as int, priority_fn(facts@, max_priority)),
        warns(*final(r)) == warns(*old(r)) + concat_range(0, facts@.len() as int, priority_warn_fn(facts@)),
{
    let n = facts.len();
    let mut k: usize = 0;
    let limit: i32 = max_priority as i32;
    while k < n
        invariant
            n == facts@.len(),
            k <= n,
            limit == max_priority as i32,
            r.wf(),
            errs(*r) == errs(*old(r)) + concat_range(0, k as int, priority_fn(facts@, max_priority)),
            warns(*r) == warns(*old(r)) + concat_range(0, k as int, priority_warn_fn(facts@)),
        decreases n - k,
    {
        let ghost e0 = errs(*r);
        let ghost w0 = warns(*r);
        let ghost s = facts@;
        let p = facts[k].priority;
        if p > limit {
            push_err(r, ValidationError::InvalidPriority { rule_id: facts[k].rule_id.clone(), priority: p });
        }
        if p > 1000 {
            push_warn(r, ValidationWarning::HighPriority { rule_id: facts[k].rule_id.clone(), priority: p });
        }
        proof {
            assert(errs(*r) =~= e0 + priority_errors(s, max_priority, k as int));
            assert(warns(*r) =~= w0 + priority_warnings(s, k as int));
        }
        k = k + 1;
    }
}

fn check_priority_conflicts(facts: &Vec<RuleFacts>, r: &mut ValidationResult)
    requires
        old(r).wf(),
    ensures
        final(r).wf(),
        errs(*final(r)) == errs(*old(r)) + concat_range(0, facts@.len() as int, conflict_fn(facts@)),
        warns(*final(r)) == warns(*old(r)),
{
    let n = facts.len();
    let mut k: usize = 0;
    while k < n
        invariant
            n == facts@.len(),
            k <= n,
            r.wf(),
            errs(*r) == errs(*old(r)) + concat_range(0, k as int, conflict_fn(facts@)),
            warns(*r) == warns(*old(r)),
        decreases n - k,
    {
        let ghost e0 = errs(*r);
        let ghost s = facts@;
        let p = facts[k].priority;
        let first = first_with_prio(facts, p, 0);
        if first == Some(k) {
            match first_with_prio(facts, p, k + 1) {
                Some(j) => {
                    push_err(r, ValidationError::PriorityConflict {
                        rule_id1: facts[k].rule_id.clone(),
                        rule_id2: facts[j].rule_id.clone(),
                        priority: p,
                    });
                    proof {
                        assert(first_with_priority(s, p, k + 1) == j);
                    }
                },
                None => {},
            }
        }
        proof {
            assert(errs(*r) =~= e0 + priority_conflicts(s, k as int));
        }
        k = k + 1;
    }
}

fn check_scopes(facts: &Vec<RuleFacts>, r: &mut ValidationResult)
    requires
        old(r).wf(),
    ensures
        final(r).wf(),
        errs(*final(r)) == errs(*old(r)) + concat_range(0, facts@.len() as int, scope_fn(facts@)),
        warns(*final(r)) == warns(*old(r)),
{
    let n = facts.len();
    let mut k: usize = 0;
    while k < n
        invariant
            n == facts@.len(),
            k <= n,
            r.wf(),
            errs(*r) == errs(*old(r)) + concat_range(0, k as int, scope_fn(facts@)),
            warns(*r) == warns(*old(r)),
        decreases n - k,
    {
        let ghost e0 = errs(*r);
        let ghost s = facts@;
        let sc = &facts[k].scope;
        if !sc.is_global && sc.agent_ids.len() == 0 && sc.flow_ids.len() == 0 {
            let mut msg = String::from_str("Rule ");
            msg.append(facts[k].rule_id.as_str());
            msg.append(" has empty scope");
            push_err(r, ValidationError::InvalidScope(msg));
        }
        proof {
            assert(errs(*r) =~= e0 + scope_errors(s, k as int));
        }
        k = k + 1;
    }
}

fn check_overlaps(facts: &Vec<RuleFacts>, r: &mut ValidationResult)
    requires
        old(r).wf(),
    ensures
        final(r).wf(),
        errs(*final(r)) == errs(*old(r)),
        warns(*final(r)) == warns(*old(r)) + concat_range(0, facts@.len() as int, overlaps_fn(facts@)),
{
    let n = facts.len();
    let mut i: usize = 0;
    while i < n
        invariant
            n == facts@.len(),
            i <= n,
            r.wf(),
            errs(*r) == errs(*old(r)),
            warns(*r) == warns(*old(r)) + concat_range(0, i as int, overlaps_fn(facts@)),
        decreases n - i,
    {
        let ghost w_i = warns(*r);
        let mut j: usize = i + 1;
        while j < n
            invariant
                n == facts@.len(),
                i < n,
                i + 1 <= j <= n,
                r.wf(),
                errs(*r) == errs(*old(r)),
                warns(*r) == w_i + concat_range(i + 1, j as int, overlap_fn(facts@, i as int)),
            decreases n - j,
        {
            let ghost w0 = warns(*r);
            if scopes_overlap_exec(&facts[i].scope, &facts[j].scope) {
                push_warn(r, ValidationWarning::OverlappingScopes {
                    rule_id1: facts[i].rule_id.clone(),
                    rule_id2: facts[j].rule_id.clone(),
                });
            }
            proof {
                assert(warns(*r) =~= w0 + overlap_warning(facts@, i as int, j as int));
            }
            j = j + 1;
        }
        proof {
            assert(overlaps_fn(facts@)(i as int) == overlap_warnings(facts@, i as int));
        }
        i = i + 1;
    }
}

fn check_constraints(facts: &Vec<RuleFacts>, r: &mut ValidationResult)
    requires
        old(r).wf(),
    ensures
        final(r).wf(),
        errs(*final(r)) == errs(*old(r)) + concat_range(0, facts@.len() as int, constraint_fn(facts@)),
        warns(*final(r)) == warns(*old(r)) + concat_range(0, facts@.len() as int, constraint_warn_fn(facts@)),
{
    let n = facts.len();
    let mut k: usize = 0;
    while k < n
        invariant
            n == facts@.len(),
            k <= n,
            r.wf(),
            errs(*r) == errs(*old(r)) + concat_range(0, k as int, constraint_fn(facts@)),
            warns(*r) == warns(*old(r)) + concat_range(0, k as int, constraint_warn_fn(facts@)),
        decreases n - k,
    {
        let ghost e0 = errs(*r);
        let ghost w0 = warns(*r);
        let ghost s = facts@;
        let f = &facts[k];
        match constraint_config_error(f.max_exec_ms, f.cpu_shares, f.sampling_rate_in_range, f.max_retries) {
            Some(m) => {
                let mut reason = String::from_str("Invalid constraint configuration: ");
                reason.append(m.as_str());
                push_err(r, ValidationError::InvalidConstraint { rule_id: f.rule_id.clone(), reason });
            },
            None => {},
        }
        match f.memory_limit_bytes {
            Some(limit) => {
                let limit_mb = limit / 1048576;
                if limit_mb > 100 {
                    push_warn(r, ValidationWarning::HighMemoryConstraint { rule_id: f.rule_id.clone(), limit_mb });
                }
            },
            None => {},
        }
        if f.max_exec_ms > 1000 {
            push_warn(r, ValidationWarning::LongTimeout { rule_id: f.rule_id.clone(), timeout_ms: f.max_exec_ms });
        }
        proof {
            assert(errs(*r) =~= e0 + constraint_errors(s, k as int));
            assert(warns(*r) =~= w0 + constraint_warnings(s, k as int));
        }
        k = k + 1;
    }
}

fn check_side_effects(facts: &Vec<RuleFacts>, allowed: &Vec<AllowedSideEffect>, r: &mut ValidationResult)
    requires
        old(r).wf(),
    ensures
        final(r).wf(),
        errs(*final(r)) == errs(*old(r)) + concat_range(0, facts@.len() as int, side_effect_fn(facts@, allowed@)),
        warns(*final(r)) == warns(*old(r)),
{
    let spawn_ok = crate::engine::action_clause::effect_listed(allowed, AllowedSideEffect::ProcessSpawn);
    let network_ok = crate::engine::action_clause::effect_listed(allowed, AllowedSideEffect::NetworkCall);
    let n = facts.len();
    let mut k: usize = 0;
    while k < n
        invariant
            n == facts@.len(),
            k <= n,
            spawn_ok == allowed@.contains(AllowedSideEffect::ProcessSpawn),
            network_ok == allowed@.contains(AllowedSideEffect::NetworkCall),
            r.wf(),
            errs(*r) == errs(*old(r)) + concat_range(0, k as int, side_effect_fn(facts@, allowed@)),
            warns(*r) == warns(*old(r)),
        decreases n - k,
    {
        let ghost e0 = errs(*r);
        let ghost s = facts@;
        match &facts[k].primary_action {
            ActionType::SpawnSidecar(_) => {
                if !spawn_ok {
                    push_err(r, ValidationError::DisallowedSideEffect {
                        rule_id: facts[k].rule_id.clone(),
                        side_effect: String::from_str("SpawnSidecar"),
                    });
                }
            },
            ActionType::Callback(_) => {
                if !network_ok {
                    push_err(r, ValidationError::DisallowedSideEffect {
                        rule_id: facts[k].rule_id.clone(),
                        side_effect: String::from_str("Callback"),
                    });
                }
            },
            _ => {},
        }
        proof {
            assert(errs(*r) =~= e0 + side_effect_errors(s, allowed@, k as int));
        }
        k = k + 1;
    }
}

fn check_pairs(facts: &Vec<RuleFacts>, r: &mut ValidationResult)
    requires
        old(r).wf(),
    ensures
        final(r).wf(),
        errs(*final(r)) == errs(*old(r)) + concat_range(0, facts@.len() as int, pairs_fn(facts@)),
        warns(*final(r)) == warns(*old(r)),
{
    let n = facts.len();
    let mut i: usize = 0;
    while i < n
        invariant
            n == facts@.len(),
            i <= n,
            r.wf(),
            warns(*r) == warns(*old(r)),
            errs(*r) == errs(*old(r)) + concat_range(0, i as int, pairs_fn(facts@)),
        decreases n - i,
    {
        let ghost e_i = errs(*r);
        let mut j: usize = i + 1;
        while j < n
            invariant
                n == facts@.len(),
                i < n,
                i + 1 <= j <= n,
                r.wf(),
                warns(*r) == warns(*old(r)),
                errs(*r) == e_i + concat_range(i + 1, j as int, pair_fn(facts@, i as int)),
            decreases n - j,
        {
            let ghost e0 = errs(*r);
            if facts[i].priority == facts[j].priority && scopes_overlap_exec(&facts[i].scope, &facts[j].scope) {
                push_err(r, ValidationError::RuleConflict {
                    rule_id1: facts[i].rule_id.clone(),
                    rule_id2: facts[j].rule_id.clone(),
                    reason: String::from_str("Same priority with overlapping scopes"),
                });
            }
            proof {
                assert(errs(*r) =~= e0 + pair_conflict(facts@, i as int, j as int));
            }
            j = j + 1;
        }
        proof {
            assert(pairs_fn(facts@)(i as int) == pair_conflicts(facts@, i as int));
        }
        i = i + 1;
    }
}

impl BundleValidator {
    /// Validates a bundle from what it reads of each rule: the bundle is not empty,
    /// not too large and has an identifier; identifiers are unique and not empty; hook
    /// digests are not empty; priorities are within bounds (warned above 1000) and not
    /// shared; scopes name something and overlapping ones are warned; constraint
    /// settings are valid (large memory and long time limits warned); sidecars and
    /// callbacks have their side effects allowed; overlapping scopes with equal
    /// priorities conflict; and a signature is present and long enough when required.
    /// Priority conflicts come in the order of each priority's first rule.
    pub fn validate_facts(
        &self,
        bundle_id: &str,
        rules: &Vec<RuleFacts>,
        allowed_side_effects: &Vec<AllowedSideEffect>,
        signature: Option<&str>,
    ) -> (r: ValidationResult)
        ensures
            r.wf(),
            errs(r) == expected_errors(
                bundle_id@,
                rules@,
                self.max_prio(),
                allowed_side_effects@,
                self.signatures_required(),
                match signature {
                    Some(sg) => Some(sg@),
                    None => None,
                },
            ),
            warns(r) == expected_warnings(rules@, self.max_rules()),
    {
        let mut r = ValidationResult::valid();
        proof {
            assert(errs(r) =~= Seq::empty());
            assert(warns(r) =~= Seq::empty());
        }
        if rules.len() == 0 {
            push_err(&mut r, ValidationError::EmptyBundle);
        }
        if rules.len() > self.max_rules_per_bundle() {
            push_warn(&mut r, ValidationWarning::LargeBundle { rule_count: rules.len() });
        }
        if bundle_id.unicode_len() == 0 {
            push_err(&mut r, ValidationError::InvalidBundleId(String::from_str("Bundle ID Cannot be empty")));
        }
        let ghost e_basic = errs(r);
        let ghost w_basic = warns(r);
        check_ids(rules, &mut r);
        check_priorities(rules, self.max_priority(), &mut r);
        check_priority_conflicts(rules, &mut r);
        check_scopes(rules, &mut r);
        check_overlaps(rules, &mut r);
        check_constraints(rules, &mut r);
        check_side_effects(rules, allowed_side_effects, &mut r);
        check_pairs(rules, &mut r);
        let ghost e_pairs = errs(r);
        if self.needs_signatures() {
            match signature {
                None => {
                    push_err(&mut r, ValidationError::SignatureVerificationFailed(String::from_str("No signature present")));
                },
                Some(sig) => {
                    if sig.len() < 64 {
                        push_err(&mut r, ValidationError::SignatureVerificationFailed(String::from_str("Invalid signature format")));
                    }
                },
            }
        }
        proof {
            let sv: Option<Seq<char>> = match signature {
                Some(sg) => Some(sg@),
                None => None,
            };
            assert(errs(r) =~= e_pairs + signature_errors(self.signatures_required(), sv));
            assert(errs(r) =~= expected_errors(bundle_id@, rules@, self.max_prio(), allowed_side_effects@, self.signatures_required(), sv));
            assert(warns(r) =~= expected_warnings(rules@, self.max_rules()));
        }
        r
    }
}

/// The rollout check of a time-window policy: a window that does not end after it starts
/// is an error, recorded after those already found.
pub fn check_time_window(result: &mut ValidationResult, start_time: u64, end_time: u64)
    ensures
        final(result).warnings@ == old(result).warnings@,
        start_time < end_time ==> *final(result) == *old(result),
        end_time <= start_time ==> {
            &&& !final(result).valid
            &&& final(result).errors@.len() == old(result).errors@.len() + 1
            &&& final(result).errors@.take(old(result).errors@.len() as int) == old(result).errors@
            &&& final(result).errors@.last() matches ValidationError::InvalidRolloutPolicy(m)
            &&& m@ == "End time must be after start time"@
        },
        old(result).wf() ==> final(result).wf(),
{
    if end_time <= start_time {
        let message = owned("End time must be after start time");
        result.add_error(ValidationError::InvalidRolloutPolicy(message));
        proof {
            assert(result.errors@.take(old(result).errors@.len() as int) =~= old(result).errors@);
        }
    }
}

proof fn lemma_concat_range_no_scope_error(lo: int, hi: int, f: spec_fn(int) -> Seq<ErrView>)
    requires
        forall|k: int, j: int| lo <= k < hi && 0 <= j < f(k).len() ==> !(#[trigger] f(k)[j] is InvalidScope),
    ensures
        forall|j: int| 0 <= j < concat_range(lo, hi, f).len() ==> !(#[trigger] concat_range(lo, hi, f)[j] is InvalidScope),
    decreases hi - lo,
{
    if hi > lo {
        lemma_concat_range_no_scope_error(lo, hi - 1, f);
        let a = concat_range(lo, hi - 1, f);
        let b = f(hi - 1);
        assert forall|j: int| 0 <= j < concat_range(lo, hi, f).len() implies !(#[trigger] concat_range(lo, hi, f)[j] is InvalidScope) by {
            if j < a.len() {
                assert(concat_range(lo, hi, f)[j] == a[j]);
            } else {
                assert(concat_range(lo, hi, f)[j] == b[j - a.len()]);
            }
        }
    }
}

proof fn lemma_concat_range_has<T>(lo: int, hi: int, f: spec_fn(int) -> Seq<T>, k: int, j: int)
    requires
        lo <= k < hi,
        0 <= j < f(k).len(),
    ensures
        concat_range(lo, hi, f).contains(f(k)[j]),
    decreases hi - lo,
{
    let a = concat_range(lo, hi - 1, f);
    if k < hi - 1 {
        lemma_concat_range_has(lo, hi - 1, f, k, j);
        let i = choose|i: int| 0 <= i < a.len() && a[i] == f(k)[j];
        assert(concat_range(lo, hi, f)[i] == f(k)[j]);
    } else {
        assert(concat_range(lo, hi, f)[a.len() + j] == f(k)[j]);
    }
}

/// Whether a rule's scope names nothing: not global, no agent, no flow.
pub open spec fn scope_names_nothing(scope: RuleScope) -> bool {
    !scope.is_global && scope.agent_ids@.len() == 0 && scope.flow_ids@.len() == 0
}

/// Scope errors: a rule whose scope is not global and names neither an agent nor a
/// flow gets an error naming it, and in a bundle whose every rule is global or names an
/// agent or a flow no scope error is reported at all.
pub proof fn lemma_scope_errors(
    bundle_id: Seq<char>,
    s: Seq<RuleFacts>,
    max_priority: u32,
    allowed: Seq<AllowedSideEffect>,
    require_signatures: bool,
    signature: Option<Seq<char>>,
)
    ensures
        forall|k: int|
            0 <= k < s.len() ==> (#[trigger] scope_errors(s, k)).len() == (if scope_names_nothing(s[k].scope) { 1int } else { 0int }),
        forall|k: int|
            0 <= k < s.len() && scope_names_nothing(s[k].scope) ==> (#[trigger] scope_errors(s, k))[0] == ErrView::InvalidScope(
                "Rule "@ + s[k].rule_id@ + " has empty scope"@,
            ),
        forall|k: int|
            0 <= k < s.len() && scope_names_nothing(#[trigger] s[k].scope) ==> expected_errors(bundle_id, s, max_priority, allowed, require_signatures, signature).contains(
                ErrView::InvalidScope("Rule "@ + s[k].rule_id@ + " has empty scope"@),
            ),
        (forall|k: int| 0 <= k < s.len() ==> !scope_names_nothing(#[trigger] s[k].scope)) ==> forall|j: int|
            0 <= j < expected_errors(bundle_id, s, max_priority, allowed, require_signatures, signature).len()
                ==> !(#[trigger] expected_errors(bundle_id, s, max_priority, allowed, require_signatures, signature)[j] is InvalidScope),
{
    let n = s.len() as int;
    let e = expected_errors(bundle_id, s, max_priority, allowed, require_signatures, signature);
    let pre = (if s.len() == 0 { seq![ErrView::EmptyBundle] } else { Seq::empty() })
        + (if bundle_id.len() == 0 { seq![ErrView::InvalidBundleId("Bundle ID Cannot be empty"@)] } else { Seq::empty() })
        + concat_range(0, n, id_fn(s)) + concat_range(0, n, priority_fn(s, max_priority))
        + concat_range(0, n, conflict_fn(s));
    let mid = concat_range(0, n, scope_fn(s));
    let post = concat_range(0, n, constraint_fn(s)) + concat_range(0, n, side_effect_fn(s, allowed))
        + concat_range(0, n, pairs_fn(s)) + signature_errors(require_signatures, signature);
    assert(e =~= pre + mid + post);
    assert forall|k: int| 0 <= k < s.len() && scope_names_nothing(#[trigger] s[k].scope) implies e.contains(
        ErrView::InvalidScope("Rule "@ + s[k].rule_id@ + " has empty scope"@),
    ) by {
        assert(scope_fn(s)(k)[0] == ErrView::InvalidScope("Rule "@ + s[k].rule_id@ + " has empty scope"@));
        lemma_concat_range_has(0, n, scope_fn(s), k, 0);
        let i = choose|i: int| 0 <= i < mid.len() && mid[i] == scope_fn(s)(k)[0];
        assert(e[pre.len() + i] == mid[i]);
    }
    if forall|k: int| 0 <= k < s.len() ==> !scope_names_nothing(#[trigger] s[k].scope) {
        assert forall|k: int, j: int| 0 <= k < n && 0 <= j < id_fn(s)(k).len() implies !(#[trigger] id_fn(s)(k)[j] is InvalidScope) by {
            if !dup_before(s, k) {
                let a = if fid(s, k).len() == 0 { seq![ErrView::InvalidRuleId("Rule ID cannot be empty"@)] } else { Seq::empty() };
                if j < a.len() {
                    assert(id_fn(s)(k)[j] == a[j]);
                } else {
                    assert(id_fn(s)(k)[j] == (id_fn(s)(k)).last());
                }
            }
        }
        lemma_concat_range_no_scope_error(0, n, id_fn(s));
        lemma_concat_range_no_scope_error(0, n, priority_fn(s, max_priority));
        lemma_concat_range_no_scope_error(0, n, conflict_fn(s));
        lemma_concat_range_no_scope_error(0, n, scope_fn(s));
        lemma_concat_range_no_scope_error(0, n, constraint_fn(s));
        lemma_concat_range_no_scope_error(0, n, side_effect_fn(s, allowed));
        assert forall|i: int, j: int| 0 <= i < n && 0 <= j < pairs_fn(s)(i).len() implies !(#[trigger] pairs_fn(s)(i)[j] is InvalidScope) by {
            lemma_concat_range_no_scope_error(i + 1, n, pair_fn(s, i));
        }
        lemma_concat_range_no_scope_error(0, n, pairs_fn(s));
        assert forall|j: int| 0 <= j < e.len() implies !(#[trigger] e[j] is InvalidScope) by {
            let parts = seq![
                (if s.len() == 0 { seq![ErrView::EmptyBundle] } else { Seq::empty() }),
                (if bundle_id.len() == 0 { seq![ErrView::InvalidBundleId("Bundle ID Cannot be empty"@)] } else { Seq::empty() }),
                concat_range(0, n, id_fn(s)),
                concat_range(0, n, priority_fn(s, max_priority)),
                concat_range(0, n, conflict_fn(s)),
                mid,
                concat_range(0, n, constraint_fn(s)),
                concat_range(0, n, side_effect_fn(s, allowed)),
                concat_range(0, n, pairs_fn(s)),
                signature_errors(require_signatures, signature),
            ];
            lemma_parts_no_scope_error(parts);
            reveal_with_fuel(join_parts, 11);
            assert(e =~= join_parts(parts, 10));
        }
    }
}

/// The concatenation of the first `m` parts.
pub open spec fn join_parts(parts: Seq<Seq<ErrView>>, m: int) -> Seq<ErrView>
    decreases m,
{
    if m <= 0 {
        Seq::empty()
    } else {
        join_parts(parts, m - 1) + parts[m - 1]
    }
}

proof fn lemma_parts_no_scope_error(parts: Seq<Seq<ErrView>>)
    requires
        forall|p: int, j: int| 0 <= p < parts.len() && 0 <= j < parts[p].len() ==> !(#[trigger] parts[p][j] is InvalidScope),
    ensures
        forall|j: int| 0 <= j < join_parts(parts, parts.len() as int).len() ==> !(#[trigger] join_parts(parts, parts.len() as int)[j] is InvalidScope),
{
    lemma_join_prefix_no_scope_error(parts, parts.len() as int);
}

proof fn lemma_join_prefix_no_scope_error(parts: Seq<Seq<ErrView>>, m: int)
    requires
        0 <= m <= parts.len(),
        forall|p: int, j: int| 0 <= p < parts.len() && 0 <= j < parts[p].len() ==> !(#[trigger] parts[p][j] is InvalidScope),
    ensures
        forall|j: int| 0 <= j < join_parts(parts, m).len() ==> !(#[trigger] join_parts(parts, m)[j] is InvalidScope),
    decreases m,
{
    if m > 0 {
        lemma_join_prefix_no_scope_error(parts, m - 1);
        let a = join_parts(parts, m - 1);
        assert forall|j: int| 0 <= j < join_parts(parts, m).len() implies !(#[trigger] join_parts(parts, m)[j] is InvalidScope) by {
            if j < a.len() {
                assert(join_parts(parts, m)[j] == a[j]);
            } else {
                assert(join_parts(parts, m)[j] == parts[m - 1][j - a.len()]);
            }
        }
    }
}

} // verus!

//! Lifecycle states, revocation policies and conflict kinds of versioned rules, the
//! handles that acknowledge operations on them, and the registry of rule versions.
use vstd::prelude::*;
use vstd::pervasive::arbitrary;
use vstd::string::*;
use std::sync::Arc;
use crate::duration::unix_now_nanos;
use crate::engine::rule_bundle::BundleId;
use crate::engine::rule_table::{find_entry, RuleTable};
use crate::shared::arc_share;
use crate::engine::action_clause::{ActionClause, ActionType};
use crate::engine::rule_metadata::{agent_texts, agents_contain, flow_texts, flows_contain, uuid_text, AgentId, FlowId, RuleId, RuleScope};
use crate::text::{decimal, owned, push_decimal, str_eq};

verus! {

/// The lifecycle state of a versioned rule.
#[derive(Debug, Clone, Copy, PartialEq, Eq, Structural)]
pub enum RuleState {
    /// Created, not yet validated
    New,
    /// Validated, not yet active
    Staged,
    /// Evaluated
    Active,
    /// Disabled for now
    Paused,
    /// Replaced by a newer version
    Deprecated,
    /// Disabled for good
    Revoked,
}

/// How a rule is revoked.
#[derive(Debug, Clone, Copy, PartialEq, Eq, Structural)]
pub enum RevocationPolicy {
    /// End active flows at once
    Immediate,
    /// Let active flows finish, within a timeout
    Graceful { timeout_seconds: u64 },
    /// Admit no new flows and wait for active ones
    Drain { max_wait_seconds: u64 },
}

impl Default for RevocationPolicy {
    /// Graceful, with a 30-second timeout.
    fn default() -> (r: Self)
        ensures
            r == (RevocationPolicy::Graceful { timeout_seconds: 30 }),
    {
        RevocationPolicy::Graceful { timeout_seconds: 30 }
    }
}

/// Why two rules conflict.
#[derive(Debug, Clone, Copy, PartialEq, Eq, Structural)]
pub enum ConflictType {
    /// Same priority and overlapping scope
    PriorityConflict,
    /// Conflicting actions
    ActionConflict,
    /// The scopes overlap completely
    ScopeOverlap,
}

/// The acknowledgement of an operation on a rule.
#[derive(Debug, Clone, PartialEq, Eq, Hash)]
pub struct OperationHandle {
    operation_id: String,
    rule_id: RuleId,
    timestamp: u64,
}

impl OperationHandle {
    /// When the operation was acknowledged, in seconds since the epoch.
    pub closed spec fn time(&self) -> u64 {
        self.timestamp
    }

    /// The id of the operation: `op_`, the rule id, `_`, the time.
    pub closed spec fn id_text(&self) -> Seq<char> {
        self.operation_id@
    }

    /// The rule operated on.
    pub closed spec fn rule(&self) -> RuleId {
        self.rule_id
    }

    /// A handle for an operation on the rule, acknowledged now.
    pub fn new(rule_id: RuleId) -> (r: Self)
        ensures
            r.rule() == rule_id,
            r.id_text() == "op_"@ + uuid_text(rule_id.value()) + "_"@ + decimal(r.time() as nat),
    {
        let timestamp = (unix_now_nanos() / 1_000_000_000) as u64;
        let mut operation_id = String::from_str("op_");
        let id = rule_id.as_str();
        operation_id.append(id.as_str());
        operation_id.append("_");
        push_decimal(&mut operation_id, timestamp);
        proof {
            assert(operation_id@ =~= "op_"@ + uuid_text(rule_id.value()) + "_"@ + decimal(timestamp as nat));
        }
        OperationHandle { operation_id, rule_id, timestamp }
    }

    /// The id of the operation.
    pub fn operation_id(&self) -> (r: &str)
        ensures
            r@ == self.id_text(),
    {
        self.operation_id.as_str()
    }

    /// The rule operated on.
    pub fn rule_id(&self) -> (r: &RuleId)
        ensures
            *r == self.rule(),
    {
        &self.rule_id
    }
}

/// Two scopes share something: their agent lists meet or either is empty, and
/// likewise their flow lists.
pub open spec fn scopes_intersect(a: RuleScope, b: RuleScope) -> bool {
    &&& (a.agent_ids@.len() == 0 || b.agent_ids@.len() == 0
        || exists|i: int| 0 <= i < a.agent_ids@.len() && agent_texts(b.agent_ids@).contains(#[trigger] a.agent_ids@[i]@))
    &&& (a.flow_ids@.len() == 0 || b.flow_ids@.len() == 0
        || exists|i: int| 0 <= i < a.flow_ids@.len() && flow_texts(b.flow_ids@).contains(#[trigger] a.flow_ids@[i]@))
}

fn agents_meet(a: &Vec<AgentId>, b: &Vec<AgentId>) -> (r: bool)
    ensures
        r == exists|i: int| 0 <= i < a@.len() && agent_texts(b@).contains(#[trigger] a@[i]@),
{
    let n = a.len();
    let mut i: usize = 0;
    while i < n
        invariant
            n == a@.len(),
            i <= n,
            forall|m: int| 0 <= m < i ==> !agent_texts(b@).contains(#[trigger] a@[m]@),
        decreases n - i,
    {
        if agents_contain(b, a[i].as_str()) {
            return true;
        }
        i = i + 1;
    }
    false
}

fn flows_meet(a: &Vec<FlowId>, b: &Vec<FlowId>) -> (r: bool)
    ensures
        r == exists|i: int| 0 <= i < a@.len() && flow_texts(b@).contains(#[trigger] a@[i]@),
{
    let n = a.len();
    let mut i: usize = 0;
    while i < n
        invariant
            n == a@.len(),
            i <= n,
            forall|m: int| 0 <= m < i ==> !flow_texts(b@).contains(#[trigger] a@[m]@),
        decreases n - i,
    {
        if flows_contain(b, a[i].as_str()) {
            return true;
        }
        i = i + 1;
    }
    false
}

/// Whether two scopes share something: agents meet (or either names none), and flows
/// meet (or either names none).
pub fn scopes_intersect_exec(a: &RuleScope, b: &RuleScope) -> (r: bool)
    ensures
        r == scopes_intersect(*a, *b),
{
    let agents = a.agent_ids.len() == 0 || b.agent_ids.len() == 0 || agents_meet(&a.agent_ids, &b.agent_ids);
    let flows = a.flow_ids.len() == 0 || b.flow_ids.len() == 0 || flows_meet(&a.flow_ids, &b.flow_ids);
    agents && flows
}

/// Some action of the clause, primary or secondary, is an allowance.
pub open spec fn has_allow(c: ActionClause) -> bool {
    c.primary_action is Allow || exists|i: int| 0 <= i < c.secondary_actions@.len() && (#[trigger] c.secondary_actions@[i]) is Allow
}

/// Some action of the clause, primary or secondary, is a denial.
pub open spec fn has_deny(c: ActionClause) -> bool {
    c.primary_action is Deny || exists|i: int| 0 <= i < c.secondary_actions@.len() && (#[trigger] c.secondary_actions@[i]) is Deny
}

fn clause_has(c: &ActionClause, want_deny: bool) -> (r: bool)
    ensures
        r == if want_deny { has_deny(*c) } else { has_allow(*c) },
{
    let hit = match &c.primary_action {
        ActionType::Allow(_) => !want_deny,
        ActionType::Deny(_) => want_deny,
        _ => false,
    };
    if hit {
        return true;
    }
    let n = c.secondary_actions.len();
    let mut i: usize = 0;
    while i < n
        invariant
            n == c.secondary_actions@.len(),
            i <= n,
            forall|m: int| 0 <= m < i ==> !(if want_deny { (#[trigger] c.secondary_actions@[m]) is Deny } else { c.secondary_actions@[m] is Allow }),
        decreases n - i,
    {
        let found = match &c.secondary_actions[i] {
            ActionType::Allow(_) => !want_deny,
            ActionType::Deny(_) => want_deny,
            _ => false,
        };
        if found {
            return true;
        }
        i = i + 1;
    }
    false
}

/// Whether one clause allows where the other denies.
pub fn actions_conflict(a: &ActionClause, b: &ActionClause) -> (r: bool)
    ensures
        r == ((has_allow(*a) && has_deny(*b)) || (has_deny(*a) && has_allow(*b))),
{
    let allow_a = clause_has(a, false);
    let deny_a = clause_has(a, true);
    let allow_b = clause_has(b, false);
    let deny_b = clause_has(b, true);
    (allow_a && deny_b) || (deny_a && allow_b)
}

/// The conflict between a new rule and an existing one: equal priorities with sharing
/// scopes, else an allowance against a denial with sharing scopes.
pub open spec fn rule_conflict(p1: i32, s1: RuleScope, a1: ActionClause, p2: i32, s2: RuleScope, a2: ActionClause) -> Option<ConflictType> {
    if p1 == p2 && scopes_intersect(s1, s2) {
        Some(ConflictType::PriorityConflict)
    } else if ((has_allow(a1) && has_deny(a2)) || (has_deny(a1) && has_allow(a2))) && scopes_intersect(s1, s2) {
        Some(ConflictType::ActionConflict)
    } else {
        None
    }
}

/// The conflict between a new rule and an existing one, if any.
pub fn check_conflict(
    priority1: i32,
    scope1: &RuleScope,
    actions1: &ActionClause,
    priority2: i32,
    scope2: &RuleScope,
    actions2: &ActionClause,
) -> (r: Option<ConflictType>)
    ensures
        r == rule_conflict(priority1, *scope1, *actions1, priority2, *scope2, *actions2),
{
    let overlap = scopes_intersect_exec(scope1, scope2);
    if priority1 == priority2 && overlap {
        return Some(ConflictType::PriorityConflict);
    }
    if actions_conflict(actions1, actions2) && overlap {
        return Some(ConflictType::ActionConflict);
    }
    None
}

/// The cheap checks before a rule is created or updated: a non-empty identifier and a
/// priority of at most 10000.
pub fn validate_rule_fields(rule_id: &str, priority: i32) -> (r: Result<(), String>)
    ensures
        r is Ok <==> (rule_id@.len() > 0 && priority <= 10000),
        r matches Err(e) ==> e@ == if rule_id@.len() == 0 {
            "Rule ID cannot be empty"@
        } else {
            "Priority too high (max: 10000)"@
        },
{
    if rule_id.unicode_len() == 0 {
        return Err(String::from_str("Rule ID cannot be empty"));
    }
    if priority > 10000 {
        return Err(String::from_str("Priority too high (max: 10000)"));
    }
    Ok(())
}

// ---------------------------------------------------------------------------
// Versioned rules
// ---------------------------------------------------------------------------

/// A rule as registered, with what the registry reads of it.
pub struct RegisteredRule<R> {
    /// The rule itself
    pub rule: R,
    /// Its identifier
    pub rule_id: RuleId,
    /// Its priority
    pub priority: i32,
    /// Where it applies
    pub scope: RuleScope,
    /// What it does
    pub actions: ActionClause,
    /// The bundle it names, if any
    pub bundle_id: Option<String>,
}

/// One version of a rule, with its lifecycle state and who made it when.
pub struct VersionedRule<R> {
    /// The rule of this version
    pub rule: Arc<RegisteredRule<R>>,
    /// Version number, from 1
    pub version: u32,
    /// Lifecycle state
    pub state: RuleState,
    /// When it was created, in nanoseconds since the Unix epoch
    pub created_at: u128,
    /// When it was last changed, in nanoseconds since the Unix epoch
    pub updated_at: u128,
    /// Who created it
    pub created_by: String,
    /// Who changed it last
    pub updated_by: String,
}

/// A rule version as values: rule, version, state, created, updated, by whom each.
pub type VersionView<R> = (Arc<RegisteredRule<R>>, u32, RuleState, u128, u128, Seq<char>, Seq<char>);

/// The values of a rule version.
pub open spec fn vview<R>(v: VersionedRule<R>) -> VersionView<R> {
    (v.rule, v.version, v.state, v.created_at, v.updated_at, v.created_by@, v.updated_by@)
}

/// The version with its state replaced.
pub open spec fn with_state<R>(v: VersionView<R>, s: RuleState) -> VersionView<R> {
    (v.0, v.1, s, v.3, v.4, v.5, v.6)
}

impl<R> VersionedRule<R> {
    /// Version 1 of a rule, created now by `created_by`, in state `New`.
    pub fn new(rule: Arc<RegisteredRule<R>>, created_by: String) -> (r: Self)
        ensures
            r.rule == rule,
            r.version == 1,
            r.state == RuleState::New,
            r.created_at == r.updated_at,
            r.created_by@ == created_by@,
            r.updated_by@ == created_by@,
    {
        let now = unix_now_nanos();
        VersionedRule {
            rule,
            version: 1,
            state: RuleState::New,
            created_at: now,
            updated_at: now,
            created_by: owned(created_by.as_str()),
            updated_by: created_by,
        }
    }

    /// Raises the version by one and records who changed it, now.
    pub fn bump_version(&mut self, updated_by: String)
        requires
            old(self).version < u32::MAX,
        ensures
            final(self).version == old(self).version + 1,
            final(self).updated_by@ == updated_by@,
            final(self).rule == old(self).rule,
            final(self).state == old(self).state,
            final(self).created_at == old(self).created_at,
            final(self).created_by@ == old(self).created_by@,
    {
        self.version = self.version + 1;
        self.updated_at = unix_now_nanos();
        self.updated_by = updated_by;
    }

    /// A copy of the version.
    pub fn duplicate(&self) -> (r: Self)
        ensures
            vview(r) == vview(*self),
    {
        VersionedRule {
            rule: arc_share(&self.rule),
            version: self.version,
            state: self.state,
            created_at: self.created_at,
            updated_at: self.updated_at,
            created_by: owned(self.created_by.as_str()),
            updated_by: owned(self.updated_by.as_str()),
        }
    }
}

/// The value under the key, the first when several.
pub open spec fn find_key<V>(s: Seq<(RuleId, V)>, k: RuleId) -> Option<V>
    decreases s.len(),
{
    if s.len() == 0 {
        None
    } else if s[0].0 == k {
        Some(s[0].1)
    } else {
        find_key(s.drop_first(), k)
    }
}

/// The pairs with the first value under the key replaced, or the pair appended (a map
/// insertion).
pub open spec fn put_key<V>(s: Seq<(RuleId, V)>, k: RuleId, v: V) -> Seq<(RuleId, V)>
    decreases s.len(),
{
    if s.len() == 0 {
        seq![(k, v)]
    } else if s[0].0 == k {
        seq![(k, v)] + s.drop_first()
    } else {
        seq![s[0]] + put_key(s.drop_first(), k, v)
    }
}

/// The pairs without the first one under the key.
pub open spec fn drop_key<V>(s: Seq<(RuleId, V)>, k: RuleId) -> Seq<(RuleId, V)>
    decreases s.len(),
{
    if s.len() == 0 {
        s
    } else if s[0].0 == k {
        s.drop_first()
    } else {
        seq![s[0]] + drop_key(s.drop_first(), k)
    }
}

/// The keys in order.
pub open spec fn keys_of<V>(s: Seq<(RuleId, V)>) -> Seq<RuleId> {
    s.map_values(|p: (RuleId, V)| p.0)
}

/// The value under the key with `f` applied, when the key has one.
pub open spec fn change_key<V>(s: Seq<(RuleId, V)>, k: RuleId, f: spec_fn(V) -> V) -> Seq<(RuleId, V)> {
    match find_key(s, k) {
        Some(v) => put_key(s, k, f(v)),
        None => s,
    }
}

/// What the registry holds: the active and the staged version of each rule, every
/// version of each rule in order, and the rules of each bundle.
pub struct RuleRegistryView<R> {
    /// Active versions by rule
    pub active: Seq<(RuleId, VersionView<R>)>,
    /// Staged versions by rule
    pub staged: Seq<(RuleId, VersionView<R>)>,
    /// All versions by rule, oldest first
    pub history: Seq<(RuleId, Seq<VersionView<R>>)>,
    /// Rules by bundle, each rule once
    pub bundles: Seq<(Seq<char>, Seq<RuleId>)>,
}

/// The rules filed under the bundle.
pub open spec fn bundle_rules(bs: Seq<(Seq<char>, Seq<RuleId>)>, b: Seq<char>) -> Option<Seq<RuleId>>
    decreases bs.len(),
{
    if bs.len() == 0 {
        None
    } else if bs[0].0 == b {
        Some(bs[0].1)
    } else {
        bundle_rules(bs.drop_first(), b)
    }
}

/// The rule filed under the bundle (added to the bundle's rules unless there, with a
/// new bundle at the end when the bundle has none).
pub open spec fn file_rule(bs: Seq<(Seq<char>, Seq<RuleId>)>, b: Seq<char>, id: RuleId) -> Seq<(Seq<char>, Seq<RuleId>)>
    decreases bs.len(),
{
    if bs.len() == 0 {
        seq![(b, seq![id])]
    } else if bs[0].0 == b {
        seq![(b, if bs[0].1.contains(id) { bs[0].1 } else { bs[0].1.push(id) })] + bs.drop_first()
    } else {
        seq![bs[0]] + file_rule(bs.drop_first(), b, id)
    }
}

impl<R> RuleRegistryView<R> {
    /// The registry after a version of a rule is added: appended to the rule's
    /// versions, made its active or staged version when in that state, and the rule
    /// filed under the bundle when one is given.
    pub open spec fn add(self, id: RuleId, v: VersionView<R>, bundle: Option<Seq<char>>) -> Self {
        RuleRegistryView {
            history: put_key(
                self.history,
                id,
                match find_key(self.history, id) {
                    Some(vs) => vs.push(v),
                    None => seq![v],
                },
            ),
            active: if v.2 == RuleState::Active {
                put_key(self.active, id, v)
            } else {
                self.active
            },
            staged: if v.2 == RuleState::Staged {
                put_key(self.staged, id, v)
            } else {
                self.staged
            },
            bundles: match bundle {
                Some(b) => file_rule(self.bundles, b, id),
                None => self.bundles,
            },
        }
    }

    /// The latest version of a rule.
    pub open spec fn latest(self, id: RuleId) -> Option<VersionView<R>> {
        match find_key(self.history, id) {
            Some(vs) => if vs.len() > 0 {
                Some(vs.last())
            } else {
                None
            },
            None => None,
        }
    }

    /// The registry with the state of the rule's active version, staged version and
    /// latest version set.
    pub open spec fn set_state(self, id: RuleId, s: RuleState) -> Self {
        RuleRegistryView {
            active: change_key(self.active, id, |v: VersionView<R>| with_state(v, s)),
            staged: change_key(self.staged, id, |v: VersionView<R>| with_state(v, s)),
            history: change_key(
                self.history,
                id,
                |vs: Seq<VersionView<R>>| if vs.len() > 0 {
                    vs.update(vs.len() - 1, with_state(vs.last(), s))
                } else {
                    vs
                },
            ),
            ..self
        }
    }
}

/// The registry of versioned rules.
pub struct RuleRegistry<R> {
    active_rules: Vec<(RuleId, VersionedRule<R>)>,
    staged_rules: Vec<(RuleId, VersionedRule<R>)>,
    version_history: Vec<(RuleId, Vec<VersionedRule<R>>)>,
    bundle_rules: Vec<(String, Vec<RuleId>)>,
}

/// Versions by rule as values.
pub open spec fn vmap_view<R>(s: Seq<(RuleId, VersionedRule<R>)>) -> Seq<(RuleId, VersionView<R>)> {
    s.map_values(|p: (RuleId, VersionedRule<R>)| (p.0, vview(p.1)))
}

/// Version lists as values.
pub open spec fn vlist_view<R>(s: Seq<VersionedRule<R>>) -> Seq<VersionView<R>> {
    s.map_values(|v: VersionedRule<R>| vview(v))
}

/// Version lists by rule as values.
pub open spec fn hist_view<R>(s: Seq<(RuleId, Vec<VersionedRule<R>>)>) -> Seq<(RuleId, Seq<VersionView<R>>)> {
    s.map_values(|p: (RuleId, Vec<VersionedRule<R>>)| (p.0, vlist_view(p.1@)))
}

/// Bundles as values.
pub open spec fn bundles_view(s: Seq<(String, Vec<RuleId>)>) -> Seq<(Seq<char>, Seq<RuleId>)> {
    s.map_values(|p: (String, Vec<RuleId>)| (p.0@, p.1@))
}

impl<R> View for RuleRegistry<R> {
    type V = RuleRegistryView<R>;

    closed spec fn view(&self) -> RuleRegistryView<R> {
        RuleRegistryView {
            active: vmap_view(self.active_rules@),
            staged: vmap_view(self.staged_rules@),
            history: hist_view(self.version_history@),
            bundles: bundles_view(self.bundle_rules@),
        }
    }
}

proof fn lemma_key_at<V>(s: Seq<(RuleId, V)>, k: RuleId, v: V, i: int)
    requires
        0 <= i < s.len(),
        s[i].0 == k,
        forall|j: int| 0 <= j < i ==> (#[trigger] s[j]).0 != k,
    ensures
        put_key(s, k, v) == s.update(i, (k, v)),
        drop_key(s, k) == s.remove(i),
        find_key(s, k) == Some(s[i].1),
    decreases s.len(),
{
    if i == 0 {
        assert(seq![(k, v)] + s.drop_first() =~= s.update(0, (k, v)));
        assert(s.drop_first() =~= s.remove(0));
    } else {
        let t = s.drop_first();
        assert forall|j: int| 0 <= j < i - 1 implies (#[trigger] t[j]).0 != k by {
            assert(t[j] == s[j + 1]);
        }
        lemma_key_at(t, k, v, i - 1);
        assert(seq![s[0]] + t.update(i - 1, (k, v)) =~= s.update(i, (k, v)));
        assert(seq![s[0]] + t.remove(i - 1) =~= s.remove(i));
    }
}

proof fn lemma_key_absent<V>(s: Seq<(RuleId, V)>, k: RuleId, v: V)
    requires
        forall|j: int| 0 <= j < s.len() ==> (#[trigger] s[j]).0 != k,
    ensures
        put_key(s, k, v) == s.push((k, v)),
        drop_key(s, k) == s,
        find_key(s, k) is None,
    decreases s.len(),
{
    if s.len() == 0 {
        assert(seq![(k, v)] =~= s.push((k, v)));
    } else {
        let t = s.drop_first();
        assert forall|j: int| 0 <= j < t.len() implies (#[trigger] t[j]).0 != k by {
            assert(t[j] == s[j + 1]);
        }
        lemma_key_absent(t, k, v);
        assert(seq![s[0]] + t.push((k, v)) =~= s.push((k, v)));
        assert(seq![s[0]] + t =~= s);
    }
}

/// The position of the first pair under the key.
fn key_position<V>(v: &Vec<(RuleId, V)>, k: RuleId) -> (r: Option<usize>)
    ensures
        match r {
            Some(i) => i < v@.len() && v@[i as int].0 == k && forall|j: int| 0 <= j < i ==> (#[trigger] v@[j]).0 != k,
            None => forall|j: int| 0 <= j < v@.len() ==> (#[trigger] v@[j]).0 != k,
        },
{
    let n = v.len();
    let mut i: usize = 0;
    while i < n
        invariant
            n == v@.len(),
            i <= n,
            forall|j: int| 0 <= j < i ==> (#[trigger] v@[j]).0 != k,
        decreases n - i,
    {
        if v[i].0 == k {
            return Some(i);
        }
        i = i + 1;
    }
    None
}

/// Puts the version under the rule (a map insertion).
fn put_version_of<R>(m: &mut Vec<(RuleId, VersionedRule<R>)>, k: RuleId, v: VersionedRule<R>)
    ensures
        vmap_view(final(m)@) == put_key(vmap_view(old(m)@), k, vview(v)),
{
    let ghost s = vmap_view(m@);
    let ghost vv = vview(v);
    match key_position(m, k) {
        Some(i) => {
            proof {
                assert forall|j: int| 0 <= j < i implies (#[trigger] s[j]).0 != k by {
                    assert(s[j].0 == m@[j].0);
                }
                lemma_key_at(s, k, vv, i as int);
            }
            m.set(i, (k, v));
            proof {
                assert(vmap_view(m@) =~= s.update(i as int, (k, vv)));
            }
        },
        None => {
            proof {
                assert forall|j: int| 0 <= j < s.len() implies (#[trigger] s[j]).0 != k by {
                    assert(s[j].0 == m@[j].0);
                }
                lemma_key_absent(s, k, vv);
            }
            m.push((k, v));
            proof {
                assert(vmap_view(m@) =~= s.push((k, vv)));
            }
        },
    }
}

/// Sets the state of the version under the rule, when it has one.
fn set_state_of<R>(m: &mut Vec<(RuleId, VersionedRule<R>)>, k: RuleId, s: RuleState)
    ensures
        vmap_view(final(m)@) == change_key(vmap_view(old(m)@), k, |v: VersionView<R>| with_state(v, s)),
{
    let ghost sv = vmap_view(m@);
    match key_position(m, k) {
        Some(i) => {
            proof {
                assert forall|j: int| 0 <= j < i implies (#[trigger] sv[j]).0 != k by {
                    assert(sv[j].0 == m@[j].0);
                }
                lemma_key_at(sv, k, with_state(sv[i as int].1, s), i as int);
            }
            let (key, mut v) = m.remove(i);
            v.state = s;
            m.insert(i, (key, v));
            proof {
                assert(vmap_view(m@) =~= sv.update(i as int, (k, with_state(sv[i as int].1, s))));
            }
        },
        None => {
            proof {
                assert forall|j: int| 0 <= j < sv.len() implies (#[trigger] sv[j]).0 != k by {
                    assert(sv[j].0 == m@[j].0);
                }
                lemma_key_absent(sv, k, sv[0].1);
            }
        },
    }
}

/// The position of the bundle.
fn bundle_position(v: &Vec<(String, Vec<RuleId>)>, b: &str) -> (r: Option<usize>)
    ensures
        match r {
            Some(i) => i < v@.len() && v@[i as int].0@ == b@ && forall|j: int| 0 <= j < i ==> (#[trigger] v@[j]).0@ != b@,
            None => forall|j: int| 0 <= j < v@.len() ==> (#[trigger] v@[j]).0@ != b@,
        },
{
    let n = v.len();
    let mut i: usize = 0;
    while i < n
        invariant
            n == v@.len(),
            i <= n,
            forall|j: int| 0 <= j < i ==> (#[trigger] v@[j]).0@ != b@,
        decreases n - i,
    {
        if str_eq(v[i].0.as_str(), b) {
            return Some(i);
        }
        i = i + 1;
    }
    None
}

proof fn lemma_bundle_at(bs: Seq<(Seq<char>, Seq<RuleId>)>, b: Seq<char>, id: RuleId, i: int)
    requires
        0 <= i < bs.len(),
        bs[i].0 == b,
        forall|j: int| 0 <= j < i ==> (#[trigger] bs[j]).0 != b,
    ensures
        file_rule(bs, b, id) == bs.update(i, (b, if bs[i].1.contains(id) { bs[i].1 } else { bs[i].1.push(id) })),
        bundle_rules(bs, b) == Some(bs[i].1),
    decreases bs.len(),
{
    if i > 0 {
        let t = bs.drop_first();
        assert forall|j: int| 0 <= j < i - 1 implies (#[trigger] t[j]).0 != b by {
            assert(t[j] == bs[j + 1]);
        }
        lemma_bundle_at(t, b, id, i - 1);
        let nv = (b, if bs[i].1.contains(id) { bs[i].1 } else { bs[i].1.push(id) });
        assert(seq![bs[0]] + t.update(i - 1, nv) =~= bs.update(i, nv));
    } else {
        let nv = (b, if bs[0].1.contains(id) { bs[0].1 } else { bs[0].1.push(id) });
        assert(seq![nv] + bs.drop_first() =~= bs.update(0, nv));
    }
}

proof fn lemma_bundle_absent(bs: Seq<(Seq<char>, Seq<RuleId>)>, b: Seq<char>, id: RuleId)
    requires
        forall|j: int| 0 <= j < bs.len() ==> (#[trigger] bs[j]).0 != b,
    ensures
        file_rule(bs, b, id) == bs.push((b, seq![id])),
        bundle_rules(bs, b) is None,
    decreases bs.len(),
{
    if bs.len() == 0 {
        assert(seq![(b, seq![id])] =~= bs.push((b, seq![id])));
    } else {
        let t = bs.drop_first();
        assert forall|j: int| 0 <= j < t.len() implies (#[trigger] t[j]).0 != b by {
            assert(t[j] == bs[j + 1]);
        }
        lemma_bundle_absent(t, b, id);
        assert(seq![bs[0]] + t.push((b, seq![id])) =~= bs.push((b, seq![id])));
    }
}

/// Whether the list holds the rule.
fn holds_rule(v: &Vec<RuleId>, id: RuleId) -> (r: bool)
    ensures
        r == v@.contains(id),
{
    let n = v.len();
    let mut i: usize = 0;
    while i < n
        invariant
            n == v@.len(),
            i <= n,
            forall|j: int| 0 <= j < i ==> v@[j] != id,
        decreases n - i,
    {
        if v[i] == id {
            return true;
        }
        i = i + 1;
    }
    false
}

impl<R> RuleRegistry<R> {
    /// An empty registry.
    pub fn new() -> (r: Self)
        ensures
            r@.active.len() == 0,
            r@.staged.len() == 0,
            r@.history.len() == 0,
            r@.bundles.len() == 0,
    {
        RuleRegistry {
            active_rules: Vec::new(),
            staged_rules: Vec::new(),
            version_history: Vec::new(),
            bundle_rules: Vec::new(),
        }
    }

    /// Adds a version of a rule: it joins the rule's versions, becomes the rule's
    /// active or staged version when in that state, and the rule is filed under the
    /// bundle when one is given.
    pub fn add_rule(&mut self, rule_id: RuleId, versioned_rule: VersionedRule<R>, bundle_id: Option<BundleId>)
        ensures
            final(self)@ == old(self)@.add(rule_id, vview(versioned_rule), match bundle_id {
                Some(b) => Some(b.0@),
                None => None,
            }),
    {
        let ghost v = vview(versioned_rule);
        // version history
        let copy = versioned_rule.duplicate();
        let ghost h = hist_view(self.version_history@);
        match key_position(&self.version_history, rule_id) {
            Some(i) => {
                proof {
                    assert forall|j: int| 0 <= j < i implies (#[trigger] h[j]).0 != rule_id by {
                        assert(h[j].0 == self.version_history@[j].0);
                    }
                    lemma_key_at(h, rule_id, h[i as int].1.push(v), i as int);
                }
                let (key, mut vs) = self.version_history.remove(i);
                let ghost before = vs@;
                vs.push(copy);
                proof {
                    assert(vlist_view(vs@) =~= vlist_view(before).push(v));
                }
                self.version_history.insert(i, (key, vs));
                proof {
                    assert(hist_view(self.version_history@) =~= h.update(i as int, (rule_id, h[i as int].1.push(v))));
                }
            },
            None => {
                proof {
                    assert forall|j: int| 0 <= j < h.len() implies (#[trigger] h[j]).0 != rule_id by {
                        assert(h[j].0 == self.version_history@[j].0);
                    }
                    lemma_key_absent(h, rule_id, seq![v]);
                }
                let mut vs: Vec<VersionedRule<R>> = Vec::new();
                vs.push(copy);
                proof {
                    assert(vlist_view(vs@) =~= seq![v]);
                }
                self.version_history.push((rule_id, vs));
                proof {
                    assert(hist_view(self.version_history@) =~= h.push((rule_id, seq![v])));
                }
            },
        }
        // active or staged
        match versioned_rule.state {
            RuleState::Active => put_version_of(&mut self.active_rules, rule_id, versioned_rule),
            RuleState::Staged => put_version_of(&mut self.staged_rules, rule_id, versioned_rule),
            _ => {},
        }
        // bundle association
        if let Some(bid) = bundle_id {
            let ghost bs = bundles_view(self.bundle_rules@);
            let ghost b = bid.0@;
            match bundle_position(&self.bundle_rules, bid.0.as_str()) {
                Some(i) => {
                    proof {
                        assert forall|j: int| 0 <= j < i implies (#[trigger] bs[j]).0 != b by {
                            assert(bs[j].0 == self.bundle_rules@[j].0@);
                        }
                        lemma_bundle_at(bs, b, rule_id, i as int);
                    }
                    let (key, mut ids) = self.bundle_rules.remove(i);
                    if !holds_rule(&ids, rule_id) {
                        ids.push(rule_id);
                    }
                    self.bundle_rules.insert(i, (key, ids));
                    proof {
                        assert(bundles_view(self.bundle_rules@) =~= bs.update(
                            i as int,
                            (b, if bs[i as int].1.contains(rule_id) { bs[i as int].1 } else { bs[i as int].1.push(rule_id) }),
                        ));
                    }
                },
                None => {
                    proof {
                        assert forall|j: int| 0 <= j < bs.len() implies (#[trigger] bs[j]).0 != b by {
                            assert(bs[j].0 == self.bundle_rules@[j].0@);
                        }
                        lemma_bundle_absent(bs, b, rule_id);
                    }
                    let mut ids: Vec<RuleId> = Vec::new();
                    ids.push(rule_id);
                    self.bundle_rules.push((bid.0, ids));
                    proof {
                        assert(bundles_view(self.bundle_rules@) =~= bs.push((b, seq![rule_id])));
                    }
                },
            }
        }
    }

    /// The active version of a rule.
    pub fn get_active_rule(&self, rule_id: &RuleId) -> (r: Option<&VersionedRule<R>>)
        ensures
            match r {
                Some(v) => find_key(self@.active, *rule_id) == Some(vview(*v)),
                None => find_key(self@.active, *rule_id) is None,
            },
    {
        Self::lookup(&self.active_rules, *rule_id)
    }

    /// The staged version of a rule.
    pub fn get_staged_rule(&self, rule_id: &RuleId) -> (r: Option<&VersionedRule<R>>)
        ensures
            match r {
                Some(v) => find_key(self@.staged, *rule_id) == Some(vview(*v)),
                None => find_key(self@.staged, *rule_id) is None,
            },
    {
        Self::lookup(&self.staged_rules, *rule_id)
    }

    fn lookup(m: &Vec<(RuleId, VersionedRule<R>)>, k: RuleId) -> (r: Option<&VersionedRule<R>>)
        ensures
            match r {
                Some(v) => find_key(vmap_view(m@), k) == Some(vview(*v)),
                None => find_key(vmap_view(m@), k) is None,
            },
    {
        let ghost s = vmap_view(m@);
        match key_position(m, k) {
            Some(i) => {
                proof {
                    assert forall|j: int| 0 <= j < i implies (#[trigger] s[j]).0 != k by {
                        assert(s[j].0 == m@[j].0);
                    }
                    lemma_key_at(s, k, s[i as int].1, i as int);
                }
                Some(&m[i].1)
            },
            None => {
                proof {
                    assert forall|j: int| 0 <= j < s.len() implies (#[trigger] s[j]).0 != k by {
                        assert(s[j].0 == m@[j].0);
                    }
                    lemma_key_absent(s, k, s[0].1);
                }
                None
            },
        }
    }

    /// The latest version of a rule.
    pub fn get_latest_version(&self, rule_id: &RuleId) -> (r: Option<&VersionedRule<R>>)
        ensures
            match r {
                Some(v) => self@.latest(*rule_id) == Some(vview(*v)),
                None => self@.latest(*rule_id) is None,
            },
    {
        let ghost h = hist_view(self.version_history@);
        match key_position(&self.version_history, *rule_id) {
            Some(i) => {
                proof {
                    assert forall|j: int| 0 <= j < i implies (#[trigger] h[j]).0 != *rule_id by {
                        assert(h[j].0 == self.version_history@[j].0);
                    }
                    lemma_key_at(h, *rule_id, h[i as int].1, i as int);
                }
                let vs = &self.version_history[i].1;
                if vs.len() == 0 {
                    None
                } else {
                    Some(&vs[vs.len() - 1])
                }
            },
            None => {
                proof {
                    assert forall|j: int| 0 <= j < h.len() implies (#[trigger] h[j]).0 != *rule_id by {
                        assert(h[j].0 == self.version_history@[j].0);
                    }
                    lemma_key_absent(h, *rule_id, h[0].1);
                }
                None
            },
        }
    }

    /// The version numbers of a rule, oldest first (none for an unknown rule).
    pub fn version_numbers(&self, rule_id: &RuleId) -> (r: Vec<u32>)
        ensures
            r@ == match find_key(self@.history, *rule_id) {
                Some(vs) => vs.map_values(|v: VersionView<R>| v.1),
                None => Seq::empty(),
            },
    {
        let ghost h = hist_view(self.version_history@);
        let mut out: Vec<u32> = Vec::new();
        match key_position(&self.version_history, *rule_id) {
            Some(i) => {
                proof {
                    assert forall|j: int| 0 <= j < i implies (#[trigger] h[j]).0 != *rule_id by {
                        assert(h[j].0 == self.version_history@[j].0);
                    }
                    lemma_key_at(h, *rule_id, h[i as int].1, i as int);
                }
                let vs = &self.version_history[i].1;
                let n = vs.len();
                let mut k: usize = 0;
                while k < n
                    invariant
                        n == vs@.len(),
                        k <= n,
                        out@ == vlist_view(vs@).take(k as int).map_values(|v: VersionView<R>| v.1),
                    decreases n - k,
                {
                    out.push(vs[k].version);
                    proof {
                        assert(out@ =~= vlist_view(vs@).take(k + 1).map_values(|v: VersionView<R>| v.1));
                    }
                    k = k + 1;
                }
                proof {
                    assert(vlist_view(vs@).take(n as int) =~= vlist_view(vs@));
                }
                out
            },
            None => {
                proof {
                    assert forall|j: int| 0 <= j < h.len() implies (#[trigger] h[j]).0 != *rule_id by {
                        assert(h[j].0 == self.version_history@[j].0);
                    }
                    lemma_key_absent(h, *rule_id, h[0].1);
                    assert(out@ =~= Seq::<u32>::empty());
                }
                out
            },
        }
    }

    /// Sets the state of the rule's active, staged and latest versions (those it has).
    pub fn update_state(&mut self, rule_id: &RuleId, new_state: RuleState) -> (r: Result<(), String>)
        ensures
            r is Ok,
            final(self)@ == old(self)@.set_state(*rule_id, new_state),
    {
        set_state_of(&mut self.active_rules, *rule_id, new_state);
        set_state_of(&mut self.staged_rules, *rule_id, new_state);
        self.set_latest_state(*rule_id, new_state);
        Ok(())
    }

    fn set_latest_state(&mut self, k: RuleId, s: RuleState)
        ensures
            final(self)@ == (RuleRegistryView {
                history: change_key(
                    old(self)@.history,
                    k,
                    |vs: Seq<VersionView<R>>| if vs.len() > 0 {
                        vs.update(vs.len() - 1, with_state(vs.last(), s))
                    } else {
                        vs
                    },
                ),
                ..old(self)@
            }),
    {
        let ghost h = hist_view(self.version_history@);
        let ghost f = |vs: Seq<VersionView<R>>| if vs.len() > 0 {
            vs.update(vs.len() - 1, with_state(vs.last(), s))
        } else {
            vs
        };
        match key_position(&self.version_history, k) {
            Some(i) => {
                proof {
                    assert forall|j: int| 0 <= j < i implies (#[trigger] h[j]).0 != k by {
                        assert(h[j].0 == self.version_history@[j].0);
                    }
                    lemma_key_at(h, k, f(h[i as int].1), i as int);
                }
                let (key, mut vs) = self.version_history.remove(i);
                let ghost before = vs@;
                if vs.len() > 0 {
                    let mut last = vs.pop().unwrap();
                    last.state = s;
                    vs.push(last);
                    proof {
                        assert(vlist_view(vs@) =~= vlist_view(before).update(
                            before.len() - 1,
                            with_state(vlist_view(before).last(), s),
                        ));
                    }
                } else {
                    proof {
                        assert(vlist_view(vs@) =~= vlist_view(before));
                    }
                }
                self.version_history.insert(i, (key, vs));
                proof {
                    assert(hist_view(self.version_history@) =~= h.update(i as int, (k, f(h[i as int].1))));
                    assert(self@.active == old(self)@.active);
                }
            },
            None => {
                proof {
                    assert forall|j: int| 0 <= j < h.len() implies (#[trigger] h[j]).0 != k by {
                        assert(h[j].0 == self.version_history@[j].0);
                    }
                    lemma_key_absent(h, k, h[0].1);
                }
            },
        }
    }

    /// Makes the rule's staged version its active one (the previous active version is
    /// replaced) and marks its latest version active; an error when it has none staged.
    pub fn promote_staged_to_active(&mut self, rule_id: &RuleId) -> (r: Result<(), String>)
        ensures
            match find_key(old(self)@.staged, *rule_id) {
                Some(v) => {
                    &&& r is Ok
                    &&& final(self)@.staged == drop_key(old(self)@.staged, *rule_id)
                    &&& final(self)@.active == put_key(old(self)@.active, *rule_id, with_state(v, RuleState::Active))
                    &&& final(self)@.history == old(self)@.set_state(*rule_id, RuleState::Active).history
                    &&& final(self)@.bundles == old(self)@.bundles
                },
                None => {
                    &&& r matches Err(e) && e@ == "No staged rule found for "@ + uuid_text(rule_id.value())
                    &&& final(self)@ == old(self)@
                },
            },
    {
        let ghost st = vmap_view(self.staged_rules@);
        match key_position(&self.staged_rules, *rule_id) {
            Some(i) => {
                proof {
                    assert forall|j: int| 0 <= j < i implies (#[trigger] st[j]).0 != *rule_id by {
                        assert(st[j].0 == self.staged_rules@[j].0);
                    }
                    lemma_key_at(st, *rule_id, st[i as int].1, i as int);
                }
                let (_, mut staged) = self.staged_rules.remove(i);
                proof {
                    assert(vmap_view(self.staged_rules@) =~= st.remove(i as int));
                }
                set_state_of(&mut self.active_rules, *rule_id, RuleState::Deprecated);
                let ghost mid = vmap_view(self.active_rules@);
                staged.state = RuleState::Active;
                put_version_of(&mut self.active_rules, *rule_id, staged);
                proof {
                    lemma_put_after_change(vmap_view(old(self).active_rules@), *rule_id, with_state(st[i as int].1, RuleState::Active));
                }
                self.set_latest_state(*rule_id, RuleState::Active);
                Ok(())
            },
            None => {
                proof {
                    assert forall|j: int| 0 <= j < st.len() implies (#[trigger] st[j]).0 != *rule_id by {
                        assert(st[j].0 == self.staged_rules@[j].0);
                    }
                    lemma_key_absent(st, *rule_id, st[0].1);
                }
                let mut msg = String::from_str("No staged rule found for ");
                let t = rule_id.as_str();
                msg.append(t.as_str());
                Err(msg)
            },
        }
    }

    /// The rules of a bundle; an error when the bundle is unknown.
    pub fn bundle_rule_ids(&self, bundle_id: &BundleId) -> (r: Result<Vec<RuleId>, String>)
        ensures
            match bundle_rules(self@.bundles, bundle_id.0@) {
                Some(ids) => r matches Ok(v) && v@ == ids,
                None => r matches Err(e) && e@ == "Bundle "@ + bundle_id.0@ + " not found"@,
            },
    {
        let ghost bs = bundles_view(self.bundle_rules@);
        match bundle_position(&self.bundle_rules, bundle_id.0.as_str()) {
            Some(i) => {
                proof {
                    assert forall|j: int| 0 <= j < i implies (#[trigger] bs[j]).0 != bundle_id.0@ by {
                        assert(bs[j].0 == self.bundle_rules@[j].0@);
                    }
                    lemma_bundle_at(bs, bundle_id.0@, arbitrary(), i as int);
                }
                let ids = &self.bundle_rules[i].1;
                let mut out: Vec<RuleId> = Vec::new();
                let n = ids.len();
                let mut k: usize = 0;
                while k < n
                    invariant
                        n == ids@.len(),
                        k <= n,
                        out@ == ids@.take(k as int),
                    decreases n - k,
                {
                    out.push(ids[k]);
                    proof {
                        assert(out@ =~= ids@.take(k + 1));
                    }
                    k = k + 1;
                }
                proof {
                    assert(ids@.take(n as int) =~= ids@);
                }
                Ok(out)
            },
            None => {
                proof {
                    assert forall|j: int| 0 <= j < bs.len() implies (#[trigger] bs[j]).0 != bundle_id.0@ by {
                        assert(bs[j].0 == self.bundle_rules@[j].0@);
                    }
                    lemma_bundle_absent(bs, bundle_id.0@, arbitrary());
                }
                let mut msg = String::from_str("Bundle ");
                msg.append(bundle_id.0.as_str());
                msg.append(" not found");
                Err(msg)
            },
        }
    }
}

/// A conflict between a rule and an active one.
#[derive(Debug, Clone)]
pub struct ConflictInfo {
    /// The active rule it conflicts with
    pub conflicting_rule_id: RuleId,
    /// Why
    pub conflict_type: ConflictType,
    /// `Conflicts with existing rule <id>`
    pub description: String,
}

/// The conflicts of a rule with the active versions, in order, skipping the excluded rule.
pub open spec fn conflicts_with<R>(
    active: Seq<(RuleId, VersionView<R>)>,
    priority: i32,
    scope: RuleScope,
    actions: ActionClause,
    exclude: Option<RuleId>,
) -> Seq<(RuleId, ConflictType)>
    decreases active.len(),
{
    if active.len() == 0 {
        Seq::empty()
    } else {
        let before = conflicts_with(active.drop_last(), priority, scope, actions, exclude);
        let (id, v) = active.last();
        if exclude == Some(id) {
            before
        } else {
            match rule_conflict(priority, scope, actions, v.0.priority, v.0.scope, v.0.actions) {
                Some(c) => before.push((id, c)),
                None => before,
            }
        }
    }
}

/// The first occurrence of each identifier, in order.
pub open spec fn distinct_ids(s: Seq<RuleId>) -> Seq<RuleId>
    decreases s.len(),
{
    if s.len() == 0 {
        s
    } else {
        let d = distinct_ids(s.drop_last());
        if d.contains(s.last()) {
            d
        } else {
            d.push(s.last())
        }
    }
}

/// The rules whose latest version is in the state, in order.
pub open spec fn latest_in_state<R>(h: Seq<(RuleId, Seq<VersionView<R>>)>, s: RuleState) -> Seq<RuleId>
    decreases h.len(),
{
    if h.len() == 0 {
        Seq::empty()
    } else {
        let before = latest_in_state(h.drop_last(), s);
        let (id, vs) = h.last();
        if vs.len() > 0 && vs.last().2 == s {
            before.push(id)
        } else {
            before
        }
    }
}

/// The rules a listing with the filter names: the active ones, the staged ones,
/// active and staged together (each once), or those whose latest version is in the
/// state.
pub open spec fn listing<R>(t: RuleRegistryView<R>, filter: Option<RuleState>) -> Seq<RuleId> {
    match filter {
        Some(RuleState::Active) => keys_of(t.active),
        Some(RuleState::Staged) => keys_of(t.staged),
        None => distinct_ids(keys_of(t.active) + keys_of(t.staged)),
        Some(s) => latest_in_state(t.history, s),
    }
}

/// The keys of the pairs, in order.
fn keys_in_order<R>(m: &Vec<(RuleId, VersionedRule<R>)>) -> (r: Vec<RuleId>)
    ensures
        r@ == keys_of(vmap_view(m@)),
{
    let mut out: Vec<RuleId> = Vec::new();
    let n = m.len();
    let mut i: usize = 0;
    while i < n
        invariant
            n == m@.len(),
            i <= n,
            out@ == keys_of(vmap_view(m@)).take(i as int),
        decreases n - i,
    {
        out.push(m[i].0);
        proof {
            assert(out@ =~= keys_of(vmap_view(m@)).take(i + 1));
        }
        i = i + 1;
    }
    proof {
        assert(keys_of(vmap_view(m@)).take(n as int) =~= keys_of(vmap_view(m@)));
    }
    out
}

impl<R> RuleRegistry<R> {
    /// The rules that the filter selects (see `listing`).
    pub fn list_rules(&self, state_filter: Option<RuleState>) -> (r: Vec<RuleId>)
        ensures
            r@ == listing(self@, state_filter),
    {
        match state_filter {
            Some(RuleState::Active) => keys_in_order(&self.active_rules),
            Some(RuleState::Staged) => keys_in_order(&self.staged_rules),
            None => {
                let mut joined = keys_in_order(&self.active_rules);
                let staged = keys_in_order(&self.staged_rules);
                let ghost first = joined@;
                let m = staged.len();
                let mut k: usize = 0;
                while k < m
                    invariant
                        m == staged@.len(),
                        k <= m,
                        joined@ == first + staged@.take(k as int),
                    decreases m - k,
                {
                    joined.push(staged[k]);
                    proof {
                        assert(first + staged@.take(k + 1) =~= (first + staged@.take(k as int)).push(staged@[k as int]));
                    }
                    k = k + 1;
                }
                proof {
                    assert(staged@.take(m as int) =~= staged@);
                }
                let mut out: Vec<RuleId> = Vec::new();
                let n = joined.len();
                let mut i: usize = 0;
                while i < n
                    invariant
                        n == joined@.len(),
                        i <= n,
                        out@ == distinct_ids(joined@.take(i as int)),
                    decreases n - i,
                {
                    proof {
                        assert(joined@.take(i + 1).drop_last() =~= joined@.take(i as int));
                        assert(joined@.take(i + 1).last() == joined@[i as int]);
                    }
                    if !holds_rule(&out, joined[i]) {
                        out.push(joined[i]);
                    }
                    i = i + 1;
                }
                proof {
                    assert(joined@.take(n as int) =~= joined@);
                }
                out
            },
            Some(s) => {
                let mut out: Vec<RuleId> = Vec::new();
                let n = self.version_history.len();
                let ghost h = hist_view(self.version_history@);
                let mut i: usize = 0;
                while i < n
                    invariant
                        n == self.version_history@.len(),
                        h == hist_view(self.version_history@),
                        i <= n,
                        out@ == latest_in_state(h.take(i as int), s),
                    decreases n - i,
                {
                    proof {
                        assert(h.take(i + 1).drop_last() =~= h.take(i as int));
                        assert(h.take(i + 1).last() == h[i as int]);
                    }
                    let vs = &self.version_history[i].1;
                    if vs.len() > 0 && vs[vs.len() - 1].state == s {
                        out.push(self.version_history[i].0);
                    }
                    i = i + 1;
                }
                proof {
                    assert(h.take(n as int) =~= h);
                }
                out
            },
        }
    }

    /// The conflicts of a rule (priority, scope, actions) with the active versions, in
    /// order, skipping the excluded rule.
    pub fn detect_conflicts(
        &self,
        priority: i32,
        scope: &RuleScope,
        actions: &ActionClause,
        exclude: Option<RuleId>,
    ) -> (r: Vec<ConflictInfo>)
        ensures
            r@.map_values(|c: ConflictInfo| (c.conflicting_rule_id, c.conflict_type))
                == conflicts_with(self@.active, priority, *scope, *actions, exclude),
            forall|i: int| 0 <= i < r@.len() ==> (#[trigger] r@[i]).description@
                == "Conflicts with existing rule "@ + uuid_text(r@[i].conflicting_rule_id.value()),
    {
        let mut out: Vec<ConflictInfo> = Vec::new();
        let n = self.active_rules.len();
        let ghost a = vmap_view(self.active_rules@);
        let mut i: usize = 0;
        while i < n
            invariant
                n == self.active_rules@.len(),
                a == vmap_view(self.active_rules@),
                i <= n,
                out@.map_values(|c: ConflictInfo| (c.conflicting_rule_id, c.conflict_type))
                    == conflicts_with(a.take(i as int), priority, *scope, *actions, exclude),
                forall|j: int| 0 <= j < out@.len() ==> (#[trigger] out@[j]).description@
                    == "Conflicts with existing rule "@ + uuid_text(out@[j].conflicting_rule_id.value()),
            decreases n - i,
        {
            proof {
                assert(a.take(i + 1).drop_last() =~= a.take(i as int));
                assert(a.take(i + 1).last() == a[i as int]);
            }
            let id = self.active_rules[i].0;
            let skip = match exclude {
                Some(x) => x == id,
                None => false,
            };
            if !skip {
                let existing: &RegisteredRule<R> = &*self.active_rules[i].1.rule;
                match check_conflict(priority, scope, actions, existing.priority, &existing.scope, &existing.actions) {
                    Some(c) => {
                        let mut description = String::from_str("Conflicts with existing rule ");
                        let t = id.as_str();
                        description.append(t.as_str());
                        let ghost prev = out@;
                        out.push(ConflictInfo { conflicting_rule_id: id, conflict_type: c, description });
                        proof {
                            assert(out@.map_values(|c: ConflictInfo| (c.conflicting_rule_id, c.conflict_type))
                                =~= prev.map_values(|c: ConflictInfo| (c.conflicting_rule_id, c.conflict_type)).push((id, c)));
                        }
                    },
                    None => {},
                }
            }
            i = i + 1;
        }
        proof {
            assert(a.take(n as int) =~= a);
        }
        out
    }
}

proof fn lemma_find_put_key<V>(s: Seq<(RuleId, V)>, k: RuleId, v: V)
    ensures
        find_key(put_key(s, k, v), k) == Some(v),
    decreases s.len(),
{
    if s.len() > 0 && s[0].0 != k {
        lemma_find_put_key(s.drop_first(), k, v);
        let r = seq![s[0]] + put_key(s.drop_first(), k, v);
        assert(r.drop_first() =~= put_key(s.drop_first(), k, v));
    }
}

/// A version added to the registry is the rule's latest version, and also its active
/// (or staged) version when it is in that state.
pub proof fn lemma_registry_add<R>(t: RuleRegistryView<R>, id: RuleId, v: VersionView<R>, bundle: Option<Seq<char>>)
    ensures
        t.add(id, v, bundle).latest(id) == Some(v),
        v.2 == RuleState::Active ==> find_key(t.add(id, v, bundle).active, id) == Some(v),
        v.2 == RuleState::Staged ==> find_key(t.add(id, v, bundle).staged, id) == Some(v),
{
    let vs = match find_key(t.history, id) {
        Some(vs) => vs.push(v),
        None => seq![v],
    };
    lemma_find_put_key(t.history, id, vs);
    lemma_find_put_key(t.active, id, v);
    lemma_find_put_key(t.staged, id, v);
}

/// After a rule's state is set, its latest version (when it has one) is in that state.
pub proof fn lemma_registry_set_state<R>(t: RuleRegistryView<R>, id: RuleId, s: RuleState)
    ensures
        t.latest(id) is Some ==> t.set_state(id, s).latest(id) == Some(with_state(t.latest(id).unwrap(), s)),
{
    if let Some(vs) = find_key(t.history, id) {
        let f = |vs: Seq<VersionView<R>>| if vs.len() > 0 {
            vs.update(vs.len() - 1, with_state(vs.last(), s))
        } else {
            vs
        };
        lemma_find_put_key(t.history, id, f(vs));
    }
}


proof fn lemma_put_after_change<V>(s: Seq<(RuleId, V)>, k: RuleId, v: V)
    ensures
        forall|f: spec_fn(V) -> V| put_key(#[trigger] change_key(s, k, f), k, v) == put_key(s, k, v),
{
    assert forall|f: spec_fn(V) -> V| put_key(#[trigger] change_key(s, k, f), k, v) == put_key(s, k, v) by {
        lemma_put_twice(s, k, v, f);
    }
}

proof fn lemma_put_twice<V>(s: Seq<(RuleId, V)>, k: RuleId, v: V, f: spec_fn(V) -> V)
    ensures
        put_key(change_key(s, k, f), k, v) == put_key(s, k, v),
    decreases s.len(),
{
    match find_key(s, k) {
        Some(w) => {
            lemma_put_put(s, k, f(w), v);
        },
        None => {},
    }
}

proof fn lemma_put_put<V>(s: Seq<(RuleId, V)>, k: RuleId, a: V, b: V)
    ensures
        put_key(put_key(s, k, a), k, b) == put_key(s, k, b),
    decreases s.len(),
{
    if s.len() == 0 {
        assert(put_key(seq![(k, a)], k, b) =~= seq![(k, b)] + seq![(k, a)].drop_first());
        assert(seq![(k, b)] + seq![(k, a)].drop_first() =~= seq![(k, b)]);
    } else if s[0].0 == k {
        let r = seq![(k, a)] + s.drop_first();
        assert(r[0].0 == k);
        assert(r.drop_first() =~= s.drop_first());
    } else {
        lemma_put_put(s.drop_first(), k, a, b);
        let r = seq![s[0]] + put_key(s.drop_first(), k, a);
        assert(r[0] == s[0]);
        assert(r.drop_first() =~= put_key(s.drop_first(), k, a));
    }
}

/// A lifecycle operation on a registered rule.
#[derive(Debug, Clone, Copy, PartialEq, Eq, Structural)]
pub enum LifecycleOp {
    /// Register a new rule: active at once, or staged for a rollout
    Create { immediate: bool },
    /// Stop evaluating an active rule
    Deactivate,
    /// Resume a paused rule
    Reactivate,
    /// Disable a rule for good
    Revoke,
}

/// Why a lifecycle operation is refused.
#[derive(Debug, Clone, Copy, PartialEq, Eq, Structural)]
pub enum LifecycleRefusal {
    /// A rule with that id is already registered
    AlreadyExists,
    /// No rule with that id is registered
    NotFound,
    /// The rule is not active
    NotActive,
    /// The rule is not paused
    NotPaused,
    /// The rule was revoked before
    AlreadyRevoked,
}

/// The state a lifecycle operation leaves a rule in, given the state of the version it
/// reads (`None` when there is none): the active version for a deactivation or a
/// reactivation, the latest version for a creation or a revocation.
pub open spec fn lifecycle_step(op: LifecycleOp, current: Option<RuleState>) -> Result<RuleState, LifecycleRefusal> {
    match op {
        LifecycleOp::Create { immediate } => match current {
            Some(_) => Err(LifecycleRefusal::AlreadyExists),
            None => Ok(if immediate { RuleState::Active } else { RuleState::Staged }),
        },
        LifecycleOp::Deactivate => match current {
            None => Err(LifecycleRefusal::NotFound),
            Some(s) => if s == RuleState::Active { Ok(RuleState::Paused) } else { Err(LifecycleRefusal::NotActive) },
        },
        LifecycleOp::Reactivate => match current {
            None => Err(LifecycleRefusal::NotFound),
            Some(s) => if s == RuleState::Paused { Ok(RuleState::Active) } else { Err(LifecycleRefusal::NotPaused) },
        },
        LifecycleOp::Revoke => match current {
            None => Err(LifecycleRefusal::NotFound),
            Some(s) => if s == RuleState::Revoked {
                Err(LifecycleRefusal::AlreadyRevoked)
            } else {
                Ok(RuleState::Revoked)
            },
        },
    }
}

/// Decides a lifecycle operation: the new state, or why it is refused.
pub fn lifecycle_transition(op: LifecycleOp, current: Option<RuleState>) -> (r: Result<RuleState, LifecycleRefusal>)
    ensures
        r == lifecycle_step(op, current),
{
    match op {
        LifecycleOp::Create { immediate } => match current {
            Some(_) => Err(LifecycleRefusal::AlreadyExists),
            None => Ok(if immediate { RuleState::Active } else { RuleState::Staged }),
        },
        LifecycleOp::Deactivate => match current {
            None => Err(LifecycleRefusal::NotFound),
            Some(RuleState::Active) => Ok(RuleState::Paused),
            Some(_) => Err(LifecycleRefusal::NotActive),
        },
        LifecycleOp::Reactivate => match current {
            None => Err(LifecycleRefusal::NotFound),
            Some(RuleState::Paused) => Ok(RuleState::Active),
            Some(_) => Err(LifecycleRefusal::NotPaused),
        },
        LifecycleOp::Revoke => match current {
            None => Err(LifecycleRefusal::NotFound),
            Some(RuleState::Revoked) => Err(LifecycleRefusal::AlreadyRevoked),
            Some(_) => Ok(RuleState::Revoked),
        },
    }
}

/// Revocation is permanent: every lifecycle operation on a revoked rule is refused.
pub proof fn lemma_revocation_is_final(op: LifecycleOp)
    ensures
        lifecycle_step(op, Some(RuleState::Revoked)) is Err,
{
}

/// Two rules that cannot both be created: the later one has the earlier one's
/// identifier, or conflicts with it.
pub open spec fn rules_clash<R>(earlier: RegisteredRule<R>, later: RegisteredRule<R>) -> bool {
    earlier.rule_id == later.rule_id || rule_conflict(
        later.priority,
        later.scope,
        later.actions,
        earlier.priority,
        earlier.scope,
        earlier.actions,
    ) is Some
}

/// No two rules of a list before position `j` clash.
pub open spec fn no_clash_before<R>(s: Seq<RegisteredRule<R>>, j: int) -> bool {
    forall|a: int, b: int| 0 <= a < b < j ==> !rules_clash(#[trigger] s[a], #[trigger] s[b])
}

/// The first pair of rules of a list that cannot both be created, ordered by the later
/// rule and then by the earlier one; `None` when every rule can be created beside the
/// others.
pub fn first_clash<R>(rules: &Vec<RegisteredRule<R>>) -> (r: Option<(usize, usize)>)
    ensures
        match r {
            Some((i, j)) => {
                &&& i < j < rules@.len()
                &&& rules_clash(rules@[i as int], rules@[j as int])
                &&& no_clash_before(rules@, j as int)
                &&& forall|a: int| 0 <= a < i ==> !rules_clash(#[trigger] rules@[a], rules@[j as int])
            },
            None => no_clash_before(rules@, rules@.len() as int),
        },
{
    let n = rules.len();
    let mut j: usize = 0;
    while j < n
        invariant
            n == rules@.len(),
            j <= n,
            no_clash_before(rules@, j as int),
        decreases n - j,
    {
        let mut i: usize = 0;
        while i < j
            invariant
                n == rules@.len(),
                i <= j < n,
                no_clash_before(rules@, j as int),
                forall|a: int| 0 <= a < i ==> !rules_clash(#[trigger] rules@[a], rules@[j as int]),
            decreases j - i,
        {
            let earlier = &rules[i];
            let later = &rules[j];
            let conflict = check_conflict(
                later.priority,
                &later.scope,
                &later.actions,
                earlier.priority,
                &earlier.scope,
                &earlier.actions,
            );
            if earlier.rule_id == later.rule_id || conflict.is_some() {
                return Some((i, j));
            }
            i = i + 1;
        }
        proof {
            assert forall|a: int, b: int| 0 <= a < b < j + 1 implies !rules_clash(#[trigger] rules@[a], #[trigger] rules@[b]) by {
                if b < j {
                } else {
                    assert(b == j);
                }
            }
        }
        j = j + 1;
    }
    None
}

/// Why deactivating or revoking a rule failed.
#[derive(Debug, Clone, PartialEq, Eq)]
pub enum LifecycleError {
    /// The rule's state does not allow it
    Refused(LifecycleRefusal),
    /// The rule table refused, with its message
    Table(String),
}

/// The state of the active version of a rule, if it has one.
pub open spec fn active_state<R>(reg: RuleRegistryView<R>, id: RuleId) -> Option<RuleState> {
    match find_key(reg.active, id) {
        Some(v) => Some(v.2),
        None => None,
    }
}

/// The state of the latest version of a rule, if it has one.
pub open spec fn latest_state<R>(reg: RuleRegistryView<R>, id: RuleId) -> Option<RuleState> {
    match reg.latest(id) {
        Some(v) => Some(v.2),
        None => None,
    }
}

/// Deactivates a rule: only an active rule is deactivated; it leaves the rule table,
/// which must hold it, and is then paused. On a refusal nothing changes.
pub fn deactivate_rule<R>(registry: &mut RuleRegistry<R>, table: &mut RuleTable<R>, rule_id: &RuleId) -> (r: Result<(), LifecycleError>)
    ensures
        lifecycle_step(LifecycleOp::Deactivate, active_state(old(registry)@, *rule_id)) matches Err(e) ==> r == Err::<(), LifecycleError>(LifecycleError::Refused(e)) && final(registry)@ == old(registry)@ && final(table)@ == old(table)@,
        lifecycle_step(LifecycleOp::Deactivate, active_state(old(registry)@, *rule_id)) is Ok && find_entry(old(table)@.entries, rule_id.value()) is None ==> r is Err && r->Err_0 is Table && final(registry)@ == old(registry)@ && final(table)@ == old(table)@,
        lifecycle_step(LifecycleOp::Deactivate, active_state(old(registry)@, *rule_id)) is Ok && find_entry(old(table)@.entries, rule_id.value()) is Some ==> r is Ok && final(table)@ == old(table)@.remove(rule_id.value()) && final(registry)@ == old(registry)@.set_state(*rule_id, RuleState::Paused),
{
    let active = match registry.get_active_rule(rule_id) {
        Some(v) => Some(v.state),
        None => None,
    };
    let new_state = match lifecycle_transition(LifecycleOp::Deactivate, active) {
        Ok(s) => s,
        Err(e) => {
            return Err(LifecycleError::Refused(e));
        },
    };
    match table.remove_rule(rule_id) {
        Ok(_) => {},
        Err(msg) => {
            return Err(LifecycleError::Table(msg));
        },
    }
    let _ = registry.update_state(rule_id, new_state);
    Ok(())
}

/// Revokes a rule: any rule not revoked before is revoked; it leaves the rule table if
/// the table holds it. On a refusal nothing changes.
pub fn revoke_rule<R>(registry: &mut RuleRegistry<R>, table: &mut RuleTable<R>, rule_id: &RuleId) -> (r: Result<(), LifecycleError>)
    ensures
        lifecycle_step(LifecycleOp::Revoke, latest_state(old(registry)@, *rule_id)) matches Err(e) ==> r == Err::<(), LifecycleError>(LifecycleError::Refused(e)) && final(registry)@ == old(registry)@ && final(table)@ == old(table)@,
        lifecycle_step(LifecycleOp::Revoke, latest_state(old(registry)@, *rule_id)) is Ok ==> r is Ok && final(table)@ == old(table)@.remove(rule_id.value()) && final(registry)@ == old(registry)@.set_state(*rule_id, RuleState::Revoked),
{
    let latest = match registry.get_latest_version(rule_id) {
        Some(v) => Some(v.state),
        None => None,
    };
    let new_state = match lifecycle_transition(LifecycleOp::Revoke, latest) {
        Ok(s) => s,
        Err(e) => {
            return Err(LifecycleError::Refused(e));
        },
    };
    let _ = table.remove_rule(rule_id);
    let _ = registry.update_state(rule_id, new_state);
    Ok(())
}

proof fn lemma_agents_meet_symmetric(a: Seq<AgentId>, b: Seq<AgentId>)
    ensures
        (exists|i: int| 0 <= i < a.len() && agent_texts(b).contains(#[trigger] a[i]@))
            == (exists|j: int| 0 <= j < b.len() && agent_texts(a).contains(#[trigger] b[j]@)),
{
    if exists|i: int| 0 <= i < a.len() && agent_texts(b).contains(#[trigger] a[i]@) {
        let i = choose|i: int| 0 <= i < a.len() && agent_texts(b).contains(#[trigger] a[i]@);
        let j = choose|j: int| 0 <= j < agent_texts(b).len() && agent_texts(b)[j] == a[i]@;
        assert(agent_texts(a)[i] == b[j]@);
        assert(agent_texts(a).contains(b[j]@));
    }
    if exists|j: int| 0 <= j < b.len() && agent_texts(a).contains(#[trigger] b[j]@) {
        let j = choose|j: int| 0 <= j < b.len() && agent_texts(a).contains(#[trigger] b[j]@);
        let i = choose|i: int| 0 <= i < agent_texts(a).len() && agent_texts(a)[i] == b[j]@;
        assert(agent_texts(b)[j] == a[i]@);
        assert(agent_texts(b).contains(a[i]@));
    }
}

proof fn lemma_flows_meet_symmetric(a: Seq<FlowId>, b: Seq<FlowId>)
    ensures
        (exists|i: int| 0 <= i < a.len() && flow_texts(b).contains(#[trigger] a[i]@))
            == (exists|j: int| 0 <= j < b.len() && flow_texts(a).contains(#[trigger] b[j]@)),
{
    if exists|i: int| 0 <= i < a.len() && flow_texts(b).contains(#[trigger] a[i]@) {
        let i = choose|i: int| 0 <= i < a.len() && flow_texts(b).contains(#[trigger] a[i]@);
        let j = choose|j: int| 0 <= j < flow_texts(b).len() && flow_texts(b)[j] == a[i]@;
        assert(flow_texts(a)[i] == b[j]@);
        assert(flow_texts(a).contains(b[j]@));
    }
    if exists|j: int| 0 <= j < b.len() && flow_texts(a).contains(#[trigger] b[j]@) {
        let j = choose|j: int| 0 <= j < b.len() && flow_texts(a).contains(#[trigger] b[j]@);
        let i = choose|i: int| 0 <= i < flow_texts(a).len() && flow_texts(a)[i] == b[j]@;
        assert(flow_texts(b)[j] == a[i]@);
        assert(flow_texts(b).contains(a[i]@));
    }
}

/// Conflict detection does not depend on which rule is the new one: two rules conflict
/// the same way whichever is checked against the other. In particular a rule that
/// denies conflicts with one that allows, and one that allows with one that denies,
/// wherever their scopes meet, and rules of equal priority conflict wherever their
/// scopes meet.
pub proof fn lemma_conflict_symmetric(p1: i32, s1: RuleScope, a1: ActionClause, p2: i32, s2: RuleScope, a2: ActionClause)
    ensures
        rule_conflict(p1, s1, a1, p2, s2, a2) == rule_conflict(p2, s2, a2, p1, s1, a1),
        scopes_intersect(s1, s2) == scopes_intersect(s2, s1),
        has_deny(a1) && has_allow(a2) && scopes_intersect(s1, s2) ==> rule_conflict(p1, s1, a1, p2, s2, a2) is Some,
        has_allow(a1) && has_deny(a2) && scopes_intersect(s1, s2) ==> rule_conflict(p1, s1, a1, p2, s2, a2) is Some,
        p1 == p2 && scopes_intersect(s1, s2) ==> rule_conflict(p1, s1, a1, p2, s2, a2) == Some(ConflictType::PriorityConflict),
        p1 != p2 && scopes_intersect(s1, s2) && ((has_deny(a1) && has_allow(a2)) || (has_allow(a1) && has_deny(a2)))
            ==> rule_conflict(p1, s1, a1, p2, s2, a2) == Some(ConflictType::ActionConflict),
        !scopes_intersect(s1, s2) ==> rule_conflict(p1, s1, a1, p2, s2, a2) is None,
        p1 != p2 && !(has_deny(a1) && has_allow(a2)) && !(has_allow(a1) && has_deny(a2)) ==> rule_conflict(p1, s1, a1, p2, s2, a2) is None,
{
    lemma_agents_meet_symmetric(s1.agent_ids@, s2.agent_ids@);
    lemma_flows_meet_symmetric(s1.flow_ids@, s2.flow_ids@);
}

/// Scopes meet exactly when they meet on agents and on flows, where a list that names
/// nothing meets every list, and two lists that name something meet when they share a
/// name.
pub proof fn lemma_scopes_intersect(a: RuleScope, b: RuleScope)
    ensures
        scopes_intersect(a, b) == ({
            &&& (a.agent_ids@.len() == 0 || b.agent_ids@.len() == 0
                || !agent_texts(a.agent_ids@).to_set().intersect(agent_texts(b.agent_ids@).to_set()).is_empty())
            &&& (a.flow_ids@.len() == 0 || b.flow_ids@.len() == 0
                || !flow_texts(a.flow_ids@).to_set().intersect(flow_texts(b.flow_ids@).to_set()).is_empty())
        }),
{
    let aa = agent_texts(a.agent_ids@);
    let ab = agent_texts(b.agent_ids@);
    if exists|i: int| 0 <= i < a.agent_ids@.len() && ab.contains(#[trigger] a.agent_ids@[i]@) {
        let i = choose|i: int| 0 <= i < a.agent_ids@.len() && ab.contains(#[trigger] a.agent_ids@[i]@);
        assert(aa[i] == a.agent_ids@[i]@);
        assert(aa.to_set().intersect(ab.to_set()).contains(aa[i]));
    }
    if !aa.to_set().intersect(ab.to_set()).is_empty() {
        let x = aa.to_set().intersect(ab.to_set()).choose();
        assert(aa.to_set().intersect(ab.to_set()).contains(x));
        let i = choose|i: int| 0 <= i < aa.len() && aa[i] == x;
        assert(ab.contains(a.agent_ids@[i]@));
    }
    let fa = flow_texts(a.flow_ids@);
    let fb = flow_texts(b.flow_ids@);
    if exists|i: int| 0 <= i < a.flow_ids@.len() && fb.contains(#[trigger] a.flow_ids@[i]@) {
        let i = choose|i: int| 0 <= i < a.flow_ids@.len() && fb.contains(#[trigger] a.flow_ids@[i]@);
        assert(fa[i] == a.flow_ids@[i]@);
        assert(fa.to_set().intersect(fb.to_set()).contains(fa[i]));
    }
    if !fa.to_set().intersect(fb.to_set()).is_empty() {
        let x = fa.to_set().intersect(fb.to_set()).choose();
        assert(fa.to_set().intersect(fb.to_set()).contains(x));
        let i = choose|i: int| 0 <= i < fa.len() && fa[i] == x;
        assert(fb.contains(a.flow_ids@[i]@));
    }
}

proof fn lemma_find_put_other<V>(s: Seq<(RuleId, V)>, k: RuleId, v: V, other: RuleId)
    requires
        other != k,
    ensures
        find_key(put_key(s, k, v), other) == find_key(s, other),
    decreases s.len(),
{
    if s.len() == 0 {
        assert(seq![(k, v)].drop_first() =~= Seq::<(RuleId, V)>::empty());
        assert(find_key(seq![(k, v)].drop_first(), other) is None);
    } else if s[0].0 == k {
        assert((seq![(k, v)] + s.drop_first()).drop_first() =~= s.drop_first());
    } else {
        lemma_find_put_other(s.drop_first(), k, v, other);
        assert((seq![s[0]] + put_key(s.drop_first(), k, v)).drop_first() =~= put_key(s.drop_first(), k, v));
    }
}

proof fn lemma_find_absent<V>(s: Seq<(RuleId, V)>, k: RuleId)
    requires
        !keys_of(s).contains(k),
    ensures
        find_key(s, k) is None,
    decreases s.len(),
{
    if s.len() > 0 {
        assert(keys_of(s)[0] == s[0].0);
        assert(keys_of(s.drop_first()) =~= keys_of(s).drop_first());
        lemma_find_absent(s.drop_first(), k);
    }
}

proof fn lemma_find_drop<V>(s: Seq<(RuleId, V)>, k: RuleId, other: RuleId)
    requires
        keys_of(s).no_duplicates(),
    ensures
        find_key(drop_key(s, k), k) is None,
        other != k ==> find_key(drop_key(s, k), other) == find_key(s, other),
    decreases s.len(),
{
    if s.len() > 0 {
        let t = s.drop_first();
        assert(keys_of(t) =~= keys_of(s).drop_first());
        assert(keys_of(s)[0] == s[0].0);
        if s[0].0 == k {
            assert forall|i: int| 0 <= i < keys_of(t).len() implies keys_of(t)[i] != k by {
                assert(keys_of(s)[i + 1] == keys_of(t)[i]);
            }
            lemma_find_absent(t, k);
        } else {
            lemma_find_drop(t, k, other);
            assert((seq![s[0]] + drop_key(t, k)).drop_first() =~= drop_key(t, k));
        }
    }
}

/// Keyed sequences behave as maps: after a rule is put under a key it is found there,
/// and after the entry under a key is dropped nothing is found there, while other keys
/// keep what they held.
pub proof fn lemma_keyed_put_drop<V>(s: Seq<(RuleId, V)>, k: RuleId, v: V, other: RuleId)
    requires
        keys_of(s).no_duplicates(),
    ensures
        find_key(put_key(s, k, v), k) == Some(v),
        other != k ==> find_key(put_key(s, k, v), other) == find_key(s, other),
        find_key(drop_key(s, k), k) is None,
        other != k ==> find_key(drop_key(s, k), other) == find_key(s, other),
{
    lemma_find_put_key(s, k, v);
    if other != k {
        lemma_find_put_other(s, k, v, other);
    }
    lemma_find_drop(s, k, other);
}

/// The conflict of a rule with a registered version.
pub open spec fn version_conflict<R>(priority: i32, scope: RuleScope, actions: ActionClause, v: VersionView<R>) -> Option<ConflictType> {
    rule_conflict(priority, scope, actions, v.0.priority, v.0.scope, v.0.actions)
}

/// The conflicts listed against the active rules are exactly the active rules, other
/// than the excluded one, that conflict with the given rule, each with its kind.
pub proof fn lemma_conflicts_listed<R>(
    active: Seq<(RuleId, VersionView<R>)>,
    priority: i32,
    scope: RuleScope,
    actions: ActionClause,
    exclude: Option<RuleId>,
    id: RuleId,
    c: ConflictType,
)
    ensures
        conflicts_with(active, priority, scope, actions, exclude).contains((id, c)) <==> exists|i: int|
            0 <= i < active.len() && (#[trigger] active[i]).0 == id && exclude != Some(id)
                && rule_conflict(priority, scope, actions, active[i].1.0.priority, active[i].1.0.scope, active[i].1.0.actions) == Some(c),
    decreases active.len(),
{
    if active.len() > 0 {
        let d = active.drop_last();
        lemma_conflicts_listed(d, priority, scope, actions, exclude, id, c);
        let before = conflicts_with(d, priority, scope, actions, exclude);
        let last = active.last();
        let now = conflicts_with(active, priority, scope, actions, exclude);
        let hit = exclude != Some(last.0) && version_conflict(priority, scope, actions, last.1) is Some;
        if hit {
            let cc = version_conflict(priority, scope, actions, last.1)->0;
            assert(now == before.push((last.0, cc)));
            if before.contains((id, c)) {
                let j = choose|j: int| 0 <= j < before.len() && before[j] == (id, c);
                assert(now[j] == (id, c));
            }
            if now.contains((id, c)) {
                let j = choose|j: int| 0 <= j < now.len() && now[j] == (id, c);
                if j < before.len() {
                    assert(before[j] == (id, c));
                } else {
                    assert(active[active.len() - 1] == last);
                }
            }
        } else {
            assert(now == before);
        }
        if exists|i: int| 0 <= i < active.len() && (#[trigger] active[i]).0 == id && exclude != Some(id)
            && rule_conflict(priority, scope, actions, active[i].1.0.priority, active[i].1.0.scope, active[i].1.0.actions) == Some(c) {
            let i = choose|i: int| 0 <= i < active.len() && (#[trigger] active[i]).0 == id && exclude != Some(id)
                && rule_conflict(priority, scope, actions, active[i].1.0.priority, active[i].1.0.scope, active[i].1.0.actions) == Some(c);
            if i < d.len() {
                assert(d[i] == active[i]);
            } else {
                assert(now[now.len() - 1] == (id, c));
            }
        }
        if exists|i: int| 0 <= i < d.len() && (#[trigger] d[i]).0 == id && exclude != Some(id)
            && rule_conflict(priority, scope, actions, d[i].1.0.priority, d[i].1.0.scope, d[i].1.0.actions) == Some(c) {
            let i = choose|i: int| 0 <= i < d.len() && (#[trigger] d[i]).0 == id && exclude != Some(id)
                && rule_conflict(priority, scope, actions, d[i].1.0.priority, d[i].1.0.scope, d[i].1.0.actions) == Some(c);
            assert(active[i] == d[i]);
        }
    }
}

} // verus!

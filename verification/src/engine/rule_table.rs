//! The in-memory rule table: rules indexed by identifier, source agent, flow,
//! destination agent and payload data type, per-rule statistics, and a decision cache
//! whose entries expire after a time to live.
//!
//! The table is generic in the rule it carries; what its logic reads of a rule (its
//! identifier, priority and scope) is held beside it in the entry.
use vstd::prelude::*;
use vstd::string::*;
use std::sync::Arc;
use crate::duration::unix_now_nanos;
use crate::engine::rule_bundle::BundleId;
use crate::engine::rule_metadata::{agent_texts, flow_texts, nibble, uuid_text, RuleId, RuleScope};
use crate::text::hex_char;
use vstd::arithmetic::div_mod::{lemma_basic_div, lemma_div_denominator, lemma_div_is_ordered, lemma_fundamental_div_mod, lemma_mod_bound};
use vstd::arithmetic::power::{lemma_pow1, lemma_pow_adds, lemma_pow_positive, pow};
use crate::shared::arc_share;
use crate::text::{owned, str_eq, strs_view};

verus! {

broadcast use vstd::seq_lib::group_filter_ensures;

// ---------------------------------------------------------------------------
// Statistics
// ---------------------------------------------------------------------------

/// Execution statistics of one rule.
#[derive(Debug, Clone, Copy, PartialEq, Eq, Structural)]
pub struct RuleStats {
    /// Times the rule was evaluated
    pub evaluation_count: u64,
    /// Times the rule matched
    pub match_count: u64,
    /// Times its action ran
    pub action_count: u64,
    /// Total evaluation time in microseconds
    pub total_eval_time_us: u64,
    /// When it was last evaluated, in nanoseconds since the Unix epoch
    pub last_evaluated: Option<u128>,
    /// Errors seen
    pub error_count: u64,
}

impl RuleStats {
    /// Statistics of a rule that has not run yet.
    pub open spec fn spec_new() -> RuleStats {
        RuleStats {
            evaluation_count: 0,
            match_count: 0,
            action_count: 0,
            total_eval_time_us: 0,
            last_evaluated: None,
            error_count: 0,
        }
    }

    /// Statistics of a rule that has not run yet: every count zero, never evaluated.
    pub fn new() -> (r: Self)
        ensures
            r == Self::spec_new(),
    {
        RuleStats {
            evaluation_count: 0,
            match_count: 0,
            action_count: 0,
            total_eval_time_us: 0,
            last_evaluated: None,
            error_count: 0,
        }
    }

    /// Records one evaluation that took `eval_time_us` and did or did not match; the
    /// time of evaluation is read from the clock.
    pub fn record_evaluation(&mut self, matched: bool, eval_time_us: u64)
        requires
            old(self).evaluation_count < u64::MAX,
            old(self).total_eval_time_us + eval_time_us <= u64::MAX,
            matched ==> old(self).match_count < u64::MAX,
        ensures
            final(self).evaluation_count == old(self).evaluation_count + 1,
            final(self).total_eval_time_us == old(self).total_eval_time_us + eval_time_us,
            final(self).match_count == old(self).match_count + if matched { 1int } else { 0int },
            final(self).last_evaluated is Some,
            final(self).action_count == old(self).action_count,
            final(self).error_count == old(self).error_count,
    {
        self.evaluation_count = self.evaluation_count + 1;
        self.total_eval_time_us = self.total_eval_time_us + eval_time_us;
        self.last_evaluated = Some(unix_now_nanos());
        if matched {
            self.match_count = self.match_count + 1;
        }
    }

    /// Records one run of the rule's action.
    pub fn record_action(&mut self)
        requires
            old(self).action_count < u64::MAX,
        ensures
            *final(self) == (RuleStats { action_count: (old(self).action_count + 1) as u64, ..*old(self) }),
    {
        self.action_count = self.action_count + 1;
    }

    /// Records one error.
    pub fn record_error(&mut self)
        requires
            old(self).error_count < u64::MAX,
        ensures
            *final(self) == (RuleStats { error_count: (old(self).error_count + 1) as u64, ..*old(self) }),
    {
        self.error_count = self.error_count + 1;
    }

    /// Mean evaluation time in microseconds (rounded down); 0 before any evaluation.
    pub fn avg_eval_time_us(&self) -> (r: u64)
        ensures
            r == if self.evaluation_count == 0 {
                0
            } else {
                self.total_eval_time_us / self.evaluation_count
            },
    {
        if self.evaluation_count == 0 {
            0
        } else {
            self.total_eval_time_us / self.evaluation_count
        }
    }
}

impl Default for RuleStats {
    /// Statistics of a rule that has not run yet.
    fn default() -> (r: Self)
        ensures
            r == RuleStats::spec_new(),
    {
        RuleStats::new()
    }
}

// ---------------------------------------------------------------------------
// Entries
// ---------------------------------------------------------------------------

/// A rule in the table, with what the table reads of it, the bundle it came from and
/// its statistics.
#[derive(Debug)]
pub struct RuleEntry<R> {
    /// The rule itself
    pub rule: Arc<R>,
    /// Its identifier
    pub rule_id: RuleId,
    /// Its priority (higher is more important)
    pub priority: i32,
    /// Where it applies
    pub scope: RuleScope,
    /// When it was activated, in nanoseconds since the Unix epoch
    pub activated_at: u128,
    /// The bundle it belongs to
    pub bundle_id: Option<BundleId>,
    /// Its execution statistics
    pub stats: RuleStats,
}

impl<R> RuleEntry<R> {
    /// An entry for a rule activated now, with fresh statistics.
    pub fn new(rule: Arc<R>, rule_id: RuleId, priority: i32, scope: RuleScope, bundle_id: Option<BundleId>) -> (r: Self)
        ensures
            r.rule == rule,
            r.rule_id == rule_id,
            r.priority == priority,
            r.scope == scope,
            r.bundle_id == bundle_id,
            r.stats == RuleStats::spec_new(),
    {
        RuleEntry {
            rule,
            rule_id,
            priority,
            scope,
            activated_at: unix_now_nanos(),
            bundle_id,
            stats: RuleStats::new(),
        }
    }

    /// The rule's identifier.
    pub fn rule_id(&self) -> (r: RuleId)
        ensures
            r == self.rule_id,
    {
        self.rule_id
    }

    /// The rule's priority.
    pub fn priority(&self) -> (r: i32)
        ensures
            r == self.priority,
    {
        self.priority
    }

    /// Whether the rule is active at the time; no time-based constraint exists, so
    /// every rule is.
    pub fn is_active(&self, now: u128) -> (r: bool)
        ensures
            r,
    {
        true
    }
}

/// The identifier value of a shared entry.
pub open spec fn eid<R>(e: Arc<RuleEntry<R>>) -> u128 {
    e.rule_id.value()
}

/// The priority of a shared entry.
pub open spec fn eprio<R>(e: Arc<RuleEntry<R>>) -> i32 {
    e.priority
}

/// The identifier values of a sequence of entries.
pub open spec fn entry_ids<R>(s: Seq<Arc<RuleEntry<R>>>) -> Seq<u128> {
    s.map_values(|e: Arc<RuleEntry<R>>| eid(e))
}

/// The first entry with the identifier value, if any.
pub open spec fn find_entry<R>(s: Seq<Arc<RuleEntry<R>>>, id: u128) -> Option<Arc<RuleEntry<R>>>
    decreases s.len(),
{
    if s.len() == 0 {
        None
    } else if eid(s[0]) == id {
        Some(s[0])
    } else {
        find_entry(s.drop_first(), id)
    }
}

/// The entries with the first one of the entry's identifier replaced by it, or the
/// entry appended when none has its identifier (a map insertion keyed by identifier).
pub open spec fn put_entry<R>(s: Seq<Arc<RuleEntry<R>>>, e: Arc<RuleEntry<R>>) -> Seq<Arc<RuleEntry<R>>>
    decreases s.len(),
{
    if s.len() == 0 {
        seq![e]
    } else if eid(s[0]) == eid(e) {
        seq![e] + s.drop_first()
    } else {
        seq![s[0]] + put_entry(s.drop_first(), e)
    }
}

/// The entries without the first one with the identifier value.
pub open spec fn drop_entry<R>(s: Seq<Arc<RuleEntry<R>>>, id: u128) -> Seq<Arc<RuleEntry<R>>>
    decreases s.len(),
{
    if s.len() == 0 {
        s
    } else if eid(s[0]) == id {
        s.drop_first()
    } else {
        seq![s[0]] + drop_entry(s.drop_first(), id)
    }
}

/// The entries whose identifier differs from `id`.
pub open spec fn without_id<R>(s: Seq<Arc<RuleEntry<R>>>, id: u128) -> Seq<Arc<RuleEntry<R>>> {
    s.filter(|e: Arc<RuleEntry<R>>| eid(e) != id)
}

// ---------------------------------------------------------------------------
// Secondary indexes
// ---------------------------------------------------------------------------

/// The entries filed under one key of a secondary index.
#[derive(Debug)]
pub struct IndexBucket<R> {
    /// The key (an agent, flow, destination or data type)
    pub key: String,
    /// The entries filed under it, in order of filing
    pub entries: Vec<Arc<RuleEntry<R>>>,
}

/// A secondary index as keys with their entries, in order of first filing.
pub open spec fn buckets_view<R>(v: Seq<IndexBucket<R>>) -> Seq<(Seq<char>, Seq<Arc<RuleEntry<R>>>)> {
    v.map_values(|b: IndexBucket<R>| (b.key@, b.entries@))
}

/// The entries filed under the key, or none when the key has no bucket.
pub open spec fn lookup<R>(bs: Seq<(Seq<char>, Seq<Arc<RuleEntry<R>>>)>, key: Seq<char>) -> Seq<Arc<RuleEntry<R>>>
    decreases bs.len(),
{
    if bs.len() == 0 {
        Seq::empty()
    } else if bs[0].0 == key {
        bs[0].1
    } else {
        lookup(bs.drop_first(), key)
    }
}

/// Files the entry under the key: appended to the key's bucket, or in a new bucket at
/// the end when the key has none.
pub open spec fn file_under<R>(
    bs: Seq<(Seq<char>, Seq<Arc<RuleEntry<R>>>)>,
    key: Seq<char>,
    e: Arc<RuleEntry<R>>,
) -> Seq<(Seq<char>, Seq<Arc<RuleEntry<R>>>)>
    decreases bs.len(),
{
    if bs.len() == 0 {
        seq![(key, seq![e])]
    } else if bs[0].0 == key {
        seq![(key, bs[0].1.push(e))] + bs.drop_first()
    } else {
        seq![bs[0]] + file_under(bs.drop_first(), key, e)
    }
}

/// Files the entry under each key in turn.
pub open spec fn file_under_all<R>(
    bs: Seq<(Seq<char>, Seq<Arc<RuleEntry<R>>>)>,
    keys: Seq<Seq<char>>,
    e: Arc<RuleEntry<R>>,
) -> Seq<(Seq<char>, Seq<Arc<RuleEntry<R>>>)>
    decreases keys.len(),
{
    if keys.len() == 0 {
        bs
    } else {
        file_under(file_under_all(bs, keys.drop_last(), e), keys.last(), e)
    }
}

/// Takes the entries with the identifier out of the buckets of the given keys; other
/// buckets, and the keys themselves, stay.
pub open spec fn unfile<R>(
    bs: Seq<(Seq<char>, Seq<Arc<RuleEntry<R>>>)>,
    keys: Seq<Seq<char>>,
    id: u128,
) -> Seq<(Seq<char>, Seq<Arc<RuleEntry<R>>>)> {
    bs.map_values(
        |b: (Seq<char>, Seq<Arc<RuleEntry<R>>>)|
            if keys.contains(b.0) {
                (b.0, without_id(b.1, id))
            } else {
                b
            },
    )
}

/// A scope applies to everything when it names no agent, flow, destination or type.
pub open spec fn scope_is_global(s: RuleScope) -> bool {
    s.agent_ids@.len() == 0 && s.flow_ids@.len() == 0 && s.dest_agent_ids@.len() == 0
        && s.payload_dtypes@.len() == 0
}

/// The source-agent keys of a scope.
pub open spec fn agent_keys(s: RuleScope) -> Seq<Seq<char>> {
    agent_texts(s.agent_ids@)
}

/// The flow keys of a scope.
pub open spec fn flow_keys(s: RuleScope) -> Seq<Seq<char>> {
    flow_texts(s.flow_ids@)
}

/// The destination-agent keys of a scope.
pub open spec fn dest_keys(s: RuleScope) -> Seq<Seq<char>> {
    agent_texts(s.dest_agent_ids@)
}

/// The data-type keys of a scope.
pub open spec fn dtype_keys(s: RuleScope) -> Seq<Seq<char>> {
    strs_view(s.payload_dtypes@)
}

/// What the table holds: its entries by identifier (in order of insertion), the
/// secondary indexes, the global rules, the decision cache and its settings.
pub struct RuleTableView<R> {
    /// Primary index: one entry per identifier
    pub entries: Seq<Arc<RuleEntry<R>>>,
    /// Entries by source agent
    pub agents: Seq<(Seq<char>, Seq<Arc<RuleEntry<R>>>)>,
    /// Entries by flow
    pub flows: Seq<(Seq<char>, Seq<Arc<RuleEntry<R>>>)>,
    /// Entries by destination agent
    pub dests: Seq<(Seq<char>, Seq<Arc<RuleEntry<R>>>)>,
    /// Entries by payload data type
    pub dtypes: Seq<(Seq<char>, Seq<Arc<RuleEntry<R>>>)>,
    /// Entries whose scope names nothing
    pub globals: Seq<Arc<RuleEntry<R>>>,
    /// Cached decisions: agent, flow, event hash, rule, decision, time cached
    pub cache: Seq<(Seq<char>, Seq<char>, u64, RuleId, Seq<char>, u128)>,
    /// How long a cached decision lives, in seconds
    pub cache_ttl_seconds: u64,
    /// How many decisions the cache holds before it evicts
    pub max_cache_size: usize,
}

impl<R> RuleTableView<R> {
    /// The table after the entry is indexed: put in the primary index under its
    /// identifier, added to the global rules when its scope names nothing, and filed
    /// under each of its agents, flows, destinations and data types.
    pub open spec fn add(self, e: Arc<RuleEntry<R>>) -> Self {
        RuleTableView {
            entries: put_entry(self.entries, e),
            globals: if scope_is_global(e.scope) {
                self.globals.push(e)
            } else {
                self.globals
            },
            agents: file_under_all(self.agents, agent_keys(e.scope), e),
            flows: file_under_all(self.flows, flow_keys(e.scope), e),
            dests: file_under_all(self.dests, dest_keys(e.scope), e),
            dtypes: file_under_all(self.dtypes, dtype_keys(e.scope), e),
            ..self
        }
    }

    /// The table after each entry is indexed in turn.
    pub open spec fn add_all(self, es: Seq<Arc<RuleEntry<R>>>) -> Self
        decreases es.len(),
    {
        if es.len() == 0 {
            self
        } else {
            self.add_all(es.drop_last()).add(es.last())
        }
    }

    /// The table after the entry `e` with identifier `id` is taken out: dropped from
    /// the primary index, and every entry with the identifier dropped from the global
    /// rules and from the buckets of `e`'s agents, flows, destinations and data types.
    pub open spec fn remove_entry(self, id: u128, e: Arc<RuleEntry<R>>) -> Self {
        RuleTableView {
            entries: drop_entry(self.entries, id),
            globals: without_id(self.globals, id),
            agents: unfile(self.agents, agent_keys(e.scope), id),
            flows: unfile(self.flows, flow_keys(e.scope), id),
            dests: unfile(self.dests, dest_keys(e.scope), id),
            dtypes: unfile(self.dtypes, dtype_keys(e.scope), id),
            ..self
        }
    }

    /// The table after the rule with the identifier is removed; unchanged when none has it.
    pub open spec fn remove(self, id: u128) -> Self {
        match find_entry(self.entries, id) {
            Some(e) => self.remove_entry(id, e),
            None => self,
        }
    }

    /// The table after each identifier is removed in turn.
    pub open spec fn remove_all(self, ids: Seq<u128>) -> Self
        decreases ids.len(),
    {
        if ids.len() == 0 {
            self
        } else {
            self.remove_all(ids.drop_last()).remove(ids.last())
        }
    }

    /// The primary index holds each identifier once.
    pub open spec fn wf(self) -> bool {
        entry_ids(self.entries).no_duplicates()
    }
}

/// The rule table.
pub struct RuleTable<R> {
    by_id: Vec<Arc<RuleEntry<R>>>,
    by_agent: Vec<IndexBucket<R>>,
    by_flow: Vec<IndexBucket<R>>,
    by_dest_agent: Vec<IndexBucket<R>>,
    by_dtype: Vec<IndexBucket<R>>,
    global: Vec<Arc<RuleEntry<R>>>,
    cache: Vec<CacheSlot>,
    cache_ttl_seconds: u64,
    max_cache_size: usize,
}

/// One cached decision.
struct CacheSlot {
    agent_id: String,
    flow_id: String,
    event_hash: u64,
    rule_id: RuleId,
    decision: String,
    cached_at: u128,
}

/// A cached decision as values.
spec fn slot_view(s: CacheSlot) -> (Seq<char>, Seq<char>, u64, RuleId, Seq<char>, u128) {
    (s.agent_id@, s.flow_id@, s.event_hash, s.rule_id, s.decision@, s.cached_at)
}

impl<R> View for RuleTable<R> {
    type V = RuleTableView<R>;

    closed spec fn view(&self) -> RuleTableView<R> {
        RuleTableView {
            entries: self.by_id@,
            agents: buckets_view(self.by_agent@),
            flows: buckets_view(self.by_flow@),
            dests: buckets_view(self.by_dest_agent@),
            dtypes: buckets_view(self.by_dtype@),
            globals: self.global@,
            cache: self.cache@.map_values(|s: CacheSlot| slot_view(s)),
            cache_ttl_seconds: self.cache_ttl_seconds,
            max_cache_size: self.max_cache_size,
        }
    }
}

/// The message of a refused insertion.
pub open spec fn exists_message(id: RuleId) -> Seq<char> {
    "Rule "@ + uuid_text(id.value()) + " already exists"@
}

/// The message of a missing rule.
pub open spec fn not_found_message(id: RuleId) -> Seq<char> {
    "Rule "@ + uuid_text(id.value()) + " not found"@
}

fn rule_message(id: &RuleId, tail: &str) -> (r: String)
    ensures
        r@ == "Rule "@ + uuid_text(id.value()) + tail@,
{
    let mut s = owned("Rule ");
    let t = id.as_str();
    s.append(t.as_str());
    s.append(tail);
    s
}

proof fn lemma_put_at<R>(s: Seq<Arc<RuleEntry<R>>>, e: Arc<RuleEntry<R>>, k: int)
    requires
        0 <= k < s.len(),
        eid(s[k]) == eid(e),
        forall|j: int| 0 <= j < k ==> eid(#[trigger] s[j]) != eid(e),
    ensures
        put_entry(s, e) == s.update(k, e),
        drop_entry(s, eid(e)) == s.remove(k),
        find_entry(s, eid(e)) == Some(s[k]),
    decreases s.len(),
{
    if k == 0 {
        assert(seq![e] + s.drop_first() =~= s.update(0, e));
        assert(s.drop_first() =~= s.remove(0));
    } else {
        let t = s.drop_first();
        assert forall|j: int| 0 <= j < k - 1 implies eid(#[trigger] t[j]) != eid(e) by {
            assert(t[j] == s[j + 1]);
        }
        lemma_put_at(t, e, k - 1);
        assert(seq![s[0]] + t.update(k - 1, e) =~= s.update(k, e));
        assert(seq![s[0]] + t.remove(k - 1) =~= s.remove(k));
    }
}

proof fn lemma_put_absent<R>(s: Seq<Arc<RuleEntry<R>>>, e: Arc<RuleEntry<R>>, id: u128)
    requires
        forall|j: int| 0 <= j < s.len() ==> eid(#[trigger] s[j]) != id,
    ensures
        id == eid(e) ==> put_entry(s, e) == s.push(e),
        drop_entry(s, id) == s,
        find_entry(s, id) is None,
        !entry_ids(s).contains(id),
    decreases s.len(),
{
    if s.len() == 0 {
        assert(seq![e] =~= s.push(e));
    } else {
        let t = s.drop_first();
        assert forall|j: int| 0 <= j < t.len() implies eid(#[trigger] t[j]) != id by {
            assert(t[j] == s[j + 1]);
        }
        lemma_put_absent(t, e, id);
        assert(seq![s[0]] + t.push(e) =~= s.push(e));
        assert(seq![s[0]] + t =~= s);
    }
    assert(!entry_ids(s).contains(id)) by {
        if entry_ids(s).contains(id) {
            let k = choose|k: int| 0 <= k < entry_ids(s).len() && entry_ids(s)[k] == id;
            assert(eid(s[k]) == id);
        }
    }
}

/// The position of the first entry with the identifier value.
fn position_of<R>(v: &Vec<Arc<RuleEntry<R>>>, id: u128) -> (r: Option<usize>)
    ensures
        match r {
            Some(k) => k < v@.len() && eid(v@[k as int]) == id && forall|j: int|
                0 <= j < k ==> eid(#[trigger] v@[j]) != id,
            None => forall|j: int| 0 <= j < v@.len() ==> eid(#[trigger] v@[j]) != id,
        },
{
    let n = v.len();
    let mut i: usize = 0;
    while i < n
        invariant
            n == v@.len(),
            i <= n,
            forall|j: int| 0 <= j < i ==> eid(#[trigger] v@[j]) != id,
        decreases n - i,
    {
        let e: &RuleEntry<R> = &*v[i];
        if e.rule_id.as_u128() == id {
            return Some(i);
        }
        i = i + 1;
    }
    None
}

/// Puts the entry under its identifier: replaces the first entry with it, or appends.
fn put<R>(v: &mut Vec<Arc<RuleEntry<R>>>, e: Arc<RuleEntry<R>>)
    ensures
        final(v)@ == put_entry(old(v)@, e),
{
    let inner: &RuleEntry<R> = &*e;
    let id = inner.rule_id.as_u128();
    match position_of(v, id) {
        Some(k) => {
            proof {
                lemma_put_at(v@, e, k as int);
            }
            v.set(k, e);
        },
        None => {
            proof {
                lemma_put_absent(v@, e, id);
            }
            v.push(e);
        },
    }
}

/// The entries whose identifier differs from `id`, in order.
fn retain_without<R>(v: &Vec<Arc<RuleEntry<R>>>, id: u128) -> (r: Vec<Arc<RuleEntry<R>>>)
    ensures
        r@ == without_id(v@, id),
{
    let mut out: Vec<Arc<RuleEntry<R>>> = Vec::new();
    let n = v.len();
    let mut i: usize = 0;
    while i < n
        invariant
            n == v@.len(),
            i <= n,
            out@ == without_id(v@.take(i as int), id),
        decreases n - i,
    {
        proof {
            reveal(Seq::filter);
            assert(v@.take(i + 1).drop_last() =~= v@.take(i as int));
            assert(v@.take(i + 1).last() == v@[i as int]);
        }
        let e: &RuleEntry<R> = &*v[i];
        if e.rule_id.as_u128() != id {
            out.push(arc_share(&v[i]));
        }
        i = i + 1;
    }
    assert(v@.take(n as int) =~= v@);
    out
}

proof fn lemma_file_at<R>(
    bs: Seq<(Seq<char>, Seq<Arc<RuleEntry<R>>>)>,
    key: Seq<char>,
    e: Arc<RuleEntry<R>>,
    k: int,
)
    requires
        0 <= k < bs.len(),
        bs[k].0 == key,
        forall|j: int| 0 <= j < k ==> (#[trigger] bs[j]).0 != key,
    ensures
        file_under(bs, key, e) == bs.update(k, (key, bs[k].1.push(e))),
        lookup(bs, key) == bs[k].1,
    decreases bs.len(),
{
    if k == 0 {
        assert(seq![(key, bs[0].1.push(e))] + bs.drop_first() =~= bs.update(0, (key, bs[0].1.push(e))));
    } else {
        let t = bs.drop_first();
        assert forall|j: int| 0 <= j < k - 1 implies (#[trigger] t[j]).0 != key by {
            assert(t[j] == bs[j + 1]);
        }
        lemma_file_at(t, key, e, k - 1);
        assert(seq![bs[0]] + t.update(k - 1, (key, t[k - 1].1.push(e))) =~= bs.update(k, (key, bs[k].1.push(e))));
    }
}

proof fn lemma_file_absent<R>(bs: Seq<(Seq<char>, Seq<Arc<RuleEntry<R>>>)>, key: Seq<char>, e: Arc<RuleEntry<R>>)
    requires
        forall|j: int| 0 <= j < bs.len() ==> (#[trigger] bs[j]).0 != key,
    ensures
        file_under(bs, key, e) == bs.push((key, seq![e])),
        lookup(bs, key) == Seq::<Arc<RuleEntry<R>>>::empty(),
    decreases bs.len(),
{
    if bs.len() == 0 {
        assert(seq![(key, seq![e])] =~= bs.push((key, seq![e])));
    } else {
        let t = bs.drop_first();
        assert forall|j: int| 0 <= j < t.len() implies (#[trigger] t[j]).0 != key by {
            assert(t[j] == bs[j + 1]);
        }
        lemma_file_absent(t, key, e);
        assert(seq![bs[0]] + t.push((key, seq![e])) =~= bs.push((key, seq![e])));
    }
}

/// The position of the bucket with the key.
fn bucket_position<R>(bs: &Vec<IndexBucket<R>>, key: &str) -> (r: Option<usize>)
    ensures
        match r {
            Some(k) => k < bs@.len() && bs@[k as int].key@ == key@ && forall|j: int|
                0 <= j < k ==> (#[trigger] bs@[j]).key@ != key@,
            None => forall|j: int| 0 <= j < bs@.len() ==> (#[trigger] bs@[j]).key@ != key@,
        },
{
    let n = bs.len();
    let mut i: usize = 0;
    while i < n
        invariant
            n == bs@.len(),
            i <= n,
            forall|j: int| 0 <= j < i ==> (#[trigger] bs@[j]).key@ != key@,
        decreases n - i,
    {
        if str_eq(bs[i].key.as_str(), key) {
            return Some(i);
        }
        i = i + 1;
    }
    None
}

/// Files the entry under the key.
fn file<R>(bs: &mut Vec<IndexBucket<R>>, key: &str, e: &Arc<RuleEntry<R>>)
    ensures
        buckets_view(final(bs)@) == file_under(buckets_view(old(bs)@), key@, *e),
{
    let ghost old_v = buckets_view(bs@);
    match bucket_position(bs, key) {
        Some(k) => {
            proof {
                assert forall|j: int| 0 <= j < k implies (#[trigger] old_v[j]).0 != key@ by {
                    assert(old_v[j] == (bs@[j].key@, bs@[j].entries@));
                }
                lemma_file_at(old_v, key@, *e, k as int);
            }
            let mut b = bs.remove(k);
            b.entries.push(arc_share(e));
            bs.insert(k, b);
            proof {
                assert(buckets_view(bs@) =~= old_v.update(k as int, (key@, old_v[k as int].1.push(*e))));
            }
        },
        None => {
            proof {
                assert forall|j: int| 0 <= j < old_v.len() implies (#[trigger] old_v[j]).0 != key@ by {
                    assert(old_v[j] == (bs@[j].key@, bs@[j].entries@));
                }
                lemma_file_absent(old_v, key@, *e);
            }
            let mut entries: Vec<Arc<RuleEntry<R>>> = Vec::new();
            entries.push(arc_share(e));
            bs.push(IndexBucket { key: owned(key), entries });
            proof {
                assert(buckets_view(bs@) =~= old_v.push((key@, seq![*e])));
            }
        },
    }
}

/// Files the entry under each key in turn.
fn file_all<R>(bs: &mut Vec<IndexBucket<R>>, keys: &Vec<String>, e: &Arc<RuleEntry<R>>)
    ensures
        buckets_view(final(bs)@) == file_under_all(buckets_view(old(bs)@), strs_view(keys@), *e),
{
    let n = keys.len();
    let mut i: usize = 0;
    while i < n
        invariant
            n == keys@.len(),
            i <= n,
            buckets_view(bs@) == file_under_all(buckets_view(old(bs)@), strs_view(keys@).take(i as int), *e),
        decreases n - i,
    {
        proof {
            assert(strs_view(keys@).take(i + 1).drop_last() =~= strs_view(keys@).take(i as int));
            assert(strs_view(keys@).take(i + 1).last() == keys@[i as int]@);
        }
        file(bs, keys[i].as_str(), e);
        i = i + 1;
    }
    assert(strs_view(keys@).take(n as int) =~= strs_view(keys@));
}

/// Takes the entries with the identifier out of the buckets of the keys.
fn unfile_all<R>(bs: &mut Vec<IndexBucket<R>>, keys: &Vec<String>, id: u128)
    ensures
        buckets_view(final(bs)@) == unfile(buckets_view(old(bs)@), strs_view(keys@), id),
{
    let ghost old_v = buckets_view(bs@);
    let n = bs.len();
    let mut i: usize = 0;
    while i < n
        invariant
            n == bs@.len(),
            i <= n,
            old_v.len() == n,
            forall|j: int| 0 <= j < i ==> #[trigger] buckets_view(bs@)[j] == unfile(old_v, strs_view(keys@), id)[j],
            forall|j: int| i <= j < n ==> #[trigger] buckets_view(bs@)[j] == old_v[j],
        decreases n - i,
    {
        let ghost prev = bs@;
        proof {
            assert(buckets_view(prev)[i as int] == (prev[i as int].key@, prev[i as int].entries@));
        }
        if crate::text::list_contains(keys, bs[i].key.as_str()) {
            let kept = retain_without(&bs[i].entries, id);
            let mut b = bs.remove(i);
            b.entries = kept;
            let ghost nb = b;
            bs.insert(i, b);
            proof {
                assert(bs@ =~= prev.update(i as int, nb));
                assert(buckets_view(bs@) =~= buckets_view(prev).update(
                    i as int,
                    (prev[i as int].key@, without_id(prev[i as int].entries@, id)),
                ));
            }
        }
        proof {
            assert forall|j: int| 0 <= j < n implies #[trigger] buckets_view(bs@)[j] == (if j <= i {
                unfile(old_v, strs_view(keys@), id)[j]
            } else {
                old_v[j]
            }) by {
                if j != i {
                    assert(buckets_view(bs@)[j] == buckets_view(prev)[j]);
                }
            }
        }
        i = i + 1;
    }
    assert(buckets_view(bs@) =~= unfile(old_v, strs_view(keys@), id));
}

/// The texts of a list of agent ids as owned strings.
fn agent_key_list(v: &Vec<crate::engine::rule_metadata::AgentId>) -> (r: Vec<String>)
    ensures
        strs_view(r@) == agent_texts(v@),
{
    let mut out: Vec<String> = Vec::new();
    let n = v.len();
    let mut i: usize = 0;
    while i < n
        invariant
            n == v@.len(),
            i <= n,
            strs_view(out@) == agent_texts(v@.take(i as int)),
        decreases n - i,
    {
        let ghost prev = out@;
        out.push(owned(v[i].as_str()));
        proof {
            assert(strs_view(out@) =~= strs_view(prev).push(v@[i as int]@));
            assert(v@.take(i + 1) =~= v@.take(i as int).push(v@[i as int]));
            assert(agent_texts(v@.take(i + 1)) =~= agent_texts(v@.take(i as int)).push(v@[i as int]@));
        }
        i = i + 1;
    }
    assert(v@.take(n as int) =~= v@);
    out
}

/// The texts of a list of flow ids as owned strings.
fn flow_key_list(v: &Vec<crate::engine::rule_metadata::FlowId>) -> (r: Vec<String>)
    ensures
        strs_view(r@) == flow_texts(v@),
{
    let mut out: Vec<String> = Vec::new();
    let n = v.len();
    let mut i: usize = 0;
    while i < n
        invariant
            n == v@.len(),
            i <= n,
            strs_view(out@) == flow_texts(v@.take(i as int)),
        decreases n - i,
    {
        let ghost prev = out@;
        out.push(owned(v[i].as_str()));
        proof {
            assert(strs_view(out@) =~= strs_view(prev).push(v@[i as int]@));
            assert(v@.take(i + 1) =~= v@.take(i as int).push(v@[i as int]));
            assert(flow_texts(v@.take(i + 1)) =~= flow_texts(v@.take(i as int)).push(v@[i as int]@));
        }
        i = i + 1;
    }
    assert(v@.take(n as int) =~= v@);
    out
}

/// A copy of a list of strings.
fn text_list(v: &Vec<String>) -> (r: Vec<String>)
    ensures
        strs_view(r@) == strs_view(v@),
{
    let mut out: Vec<String> = Vec::new();
    let n = v.len();
    let mut i: usize = 0;
    while i < n
        invariant
            n == v@.len(),
            i <= n,
            strs_view(out@) == strs_view(v@.take(i as int)),
        decreases n - i,
    {
        let ghost prev = out@;
        out.push(owned(v[i].as_str()));
        proof {
            assert(strs_view(out@) =~= strs_view(prev).push(v@[i as int]@));
            assert(v@.take(i + 1) =~= v@.take(i as int).push(v@[i as int]));
            assert(strs_view(v@.take(i + 1)) =~= strs_view(v@.take(i as int)).push(v@[i as int]@));
        }
        i = i + 1;
    }
    assert(v@.take(n as int) =~= v@);
    out
}

/// A rule to put in the table, with what the table reads of it.
pub struct TableRule<R> {
    /// The rule itself
    pub rule: R,
    /// Its identifier
    pub rule_id: RuleId,
    /// Its priority
    pub priority: i32,
    /// Where it applies
    pub scope: RuleScope,
}

/// The entry made from a rule: same rule, identifier, priority and scope, the given
/// bundle, and fresh statistics.
pub open spec fn entry_of<R>(e: Arc<RuleEntry<R>>, r: TableRule<R>, bundle_id: Option<BundleId>) -> bool {
    &&& *e.rule == r.rule
    &&& e.rule_id == r.rule_id
    &&& e.priority == r.priority
    &&& e.scope == r.scope
    &&& same_bundle(e.bundle_id, bundle_id)
    &&& e.stats == RuleStats::spec_new()
}

impl<R> RuleTable<R> {
    /// An empty table whose decisions live 60 seconds, at most 10000 of them.
    pub fn new() -> (r: Self)
        ensures
            r@.entries.len() == 0,
            r@.globals.len() == 0,
            r@.agents.len() == 0,
            r@.flows.len() == 0,
            r@.dests.len() == 0,
            r@.dtypes.len() == 0,
            r@.cache.len() == 0,
            r@.cache_ttl_seconds == 60,
            r@.max_cache_size == 10000,
            r@.wf(),
    {
        Self::with_config(60, 10000)
    }

    /// An empty table with the given cache time to live (seconds) and cache size.
    pub fn with_config(cache_ttl_seconds: u64, max_cache_size: usize) -> (r: Self)
        ensures
            r@.entries.len() == 0,
            r@.globals.len() == 0,
            r@.agents.len() == 0,
            r@.flows.len() == 0,
            r@.dests.len() == 0,
            r@.dtypes.len() == 0,
            r@.cache.len() == 0,
            r@.cache_ttl_seconds == cache_ttl_seconds,
            r@.max_cache_size == max_cache_size,
            r@.wf(),
    {
        let t = RuleTable {
            by_id: Vec::new(),
            by_agent: Vec::new(),
            by_flow: Vec::new(),
            by_dest_agent: Vec::new(),
            by_dtype: Vec::new(),
            global: Vec::new(),
            cache: Vec::new(),
            cache_ttl_seconds,
            max_cache_size,
        };
        proof {
            assert(t@.cache =~= Seq::empty());
        }
        t
    }

    /// The entry with the identifier.
    pub fn get_rule(&self, rule_id: &RuleId) -> (r: Option<Arc<RuleEntry<R>>>)
        ensures
            r == find_entry(self@.entries, rule_id.value()),
    {
        match position_of(&self.by_id, rule_id.as_u128()) {
            Some(k) => {
                proof {
                    lemma_put_at(self.by_id@, self.by_id@[k as int], k as int);
                }
                Some(arc_share(&self.by_id[k]))
            },
            None => {
                proof {
                    lemma_put_absent(self.by_id@, self.by_id@[0], rule_id.value());
                }
                None
            },
        }
    }

    /// How many rules the table holds.
    pub fn len(&self) -> (r: usize)
        ensures
            r == self@.entries.len(),
    {
        self.by_id.len()
    }

    /// Whether the table holds no rule.
    pub fn is_empty(&self) -> (r: bool)
        ensures
            r == (self@.entries.len() == 0),
    {
        self.len() == 0
    }

    /// Indexes an entry.
    fn index_entry(&mut self, e: Arc<RuleEntry<R>>)
        ensures
            final(self)@ == old(self)@.add(e),
    {
        let inner: &RuleEntry<R> = &*e;
        let scope = &inner.scope;
        let is_global = scope.agent_ids.len() == 0 && scope.flow_ids.len() == 0
            && scope.dest_agent_ids.len() == 0 && scope.payload_dtypes.len() == 0;
        if is_global {
            self.global.push(arc_share(&e));
        }
        let agents = agent_key_list(&scope.agent_ids);
        file_all(&mut self.by_agent, &agents, &e);
        let flows = flow_key_list(&scope.flow_ids);
        file_all(&mut self.by_flow, &flows, &e);
        let dests = agent_key_list(&scope.dest_agent_ids);
        file_all(&mut self.by_dest_agent, &dests, &e);
        let dtypes = text_list(&scope.payload_dtypes);
        file_all(&mut self.by_dtype, &dtypes, &e);
        put(&mut self.by_id, e);
        proof {
            assert(self@.cache =~= old(self)@.cache);
        }
    }

    /// Takes an entry out of the indexes.
    fn unindex_entry(&mut self, id: u128, e: &Arc<RuleEntry<R>>)
        ensures
            final(self)@ == old(self)@.remove_entry(id, *e),
    {
        let inner: &RuleEntry<R> = &**e;
        let scope = &inner.scope;
        match position_of(&self.by_id, id) {
            Some(k) => {
                proof {
                    lemma_put_at(self.by_id@, self.by_id@[k as int], k as int);
                }
                self.by_id.remove(k);
            },
            None => {
                proof {
                    lemma_put_absent(self.by_id@, *e, id);
                }
            },
        }
        self.global = retain_without(&self.global, id);
        let agents = agent_key_list(&scope.agent_ids);
        unfile_all(&mut self.by_agent, &agents, id);
        let flows = flow_key_list(&scope.flow_ids);
        unfile_all(&mut self.by_flow, &flows, id);
        let dests = agent_key_list(&scope.dest_agent_ids);
        unfile_all(&mut self.by_dest_agent, &dests, id);
        let dtypes = text_list(&scope.payload_dtypes);
        unfile_all(&mut self.by_dtype, &dtypes, id);
        proof {
            assert(self@.cache =~= old(self)@.cache);
        }
    }

    /// Adds a rule of the bundle; refused when a rule with its identifier is there.
    pub fn add_rule(&mut self, rule: TableRule<R>, bundle_id: Option<BundleId>) -> (r: Result<(), String>)
        ensures
            match r {
                Ok(()) => {
                    &&& !entry_ids(old(self)@.entries).contains(rule.rule_id.value())
                    &&& final(self)@.entries.len() == old(self)@.entries.len() + 1
                    &&& entry_of(final(self)@.entries.last(), rule, bundle_id)
                    &&& final(self)@ == old(self)@.add(final(self)@.entries.last())
                    &&& old(self)@.wf() ==> final(self)@.wf()
                },
                Err(msg) => {
                    &&& entry_ids(old(self)@.entries).contains(rule.rule_id.value())
                    &&& msg@ == exists_message(rule.rule_id)
                    &&& final(self)@ == old(self)@
                },
            },
    {
        let id = rule.rule_id;
        match position_of(&self.by_id, id.as_u128()) {
            Some(k) => {
                proof {
                    assert(entry_ids(self.by_id@)[k as int] == id.value());
                }
                return Err(rule_message(&id, " already exists"));
            },
            None => {
                let e = Arc::new(RuleEntry::new(Arc::new(rule.rule), id, rule.priority, rule.scope, bundle_id));
                proof {
                    lemma_put_absent(self.by_id@, e, id.value());
                }
                self.index_entry(e);
                proof {
                    if old(self)@.wf() {
                        lemma_put_keeps_wf(old(self)@.entries, e);
                    }
                }
                Ok(())
            },
        }
    }

    /// Removes the rule with the identifier and hands back its entry; an error when no
    /// rule has it.
    pub fn remove_rule(&mut self, rule_id: &RuleId) -> (r: Result<Arc<RuleEntry<R>>, String>)
        ensures
            match r {
                Ok(e) => {
                    &&& find_entry(old(self)@.entries, rule_id.value()) == Some(e)
                    &&& final(self)@ == old(self)@.remove(rule_id.value())
                    &&& old(self)@.wf() ==> final(self)@.wf()
                },
                Err(msg) => {
                    &&& find_entry(old(self)@.entries, rule_id.value()) is None
                    &&& msg@ == not_found_message(*rule_id)
                    &&& final(self)@ == old(self)@
                },
            },
    {
        match self.get_rule(rule_id) {
            Some(e) => {
                self.unindex_entry(rule_id.as_u128(), &e);
                proof {
                    if old(self)@.wf() {
                        lemma_drop_keeps_wf(old(self)@.entries, rule_id.value());
                    }
                }
                Ok(e)
            },
            None => Err(rule_message(rule_id, " not found")),
        }
    }
}

/// Two optional bundles name the same bundle (or both none).
pub open spec fn same_bundle(a: Option<BundleId>, b: Option<BundleId>) -> bool {
    match (a, b) {
        (Some(x), Some(y)) => x.0@ == y.0@,
        (None, None) => true,
        _ => false,
    }
}

/// The entry belongs to the bundle.
pub open spec fn in_bundle<R>(e: Arc<RuleEntry<R>>, b: BundleId) -> bool {
    same_bundle(e.bundle_id, Some(b))
}

/// The identifiers of the entries that belong to the bundle, in order.
pub open spec fn bundle_rule_ids<R>(s: Seq<Arc<RuleEntry<R>>>, b: BundleId) -> Seq<u128>
    decreases s.len(),
{
    if s.len() == 0 {
        Seq::empty()
    } else if in_bundle(s.last(), b) {
        bundle_rule_ids(s.drop_last(), b).push(eid(s.last()))
    } else {
        bundle_rule_ids(s.drop_last(), b)
    }
}

/// Two scopes name the same agents, flows, destinations and data types, in the same order.
pub open spec fn same_keys(a: RuleScope, b: RuleScope) -> bool {
    &&& agent_keys(a) == agent_keys(b)
    &&& flow_keys(a) == flow_keys(b)
    &&& dest_keys(a) == dest_keys(b)
    &&& dtype_keys(a) == dtype_keys(b)
}

/// `e2` is `e` with its statistics replaced by `s`.
pub open spec fn restated<R>(e: Arc<RuleEntry<R>>, e2: Arc<RuleEntry<R>>, s: RuleStats) -> bool {
    &&& e2.rule == e.rule
    &&& e2.rule_id == e.rule_id
    &&& e2.priority == e.priority
    &&& same_keys(e2.scope, e.scope)
    &&& e2.activated_at == e.activated_at
    &&& same_bundle(e2.bundle_id, e.bundle_id)
    &&& e2.stats == s
}

/// The first rule of the batch whose identifier the entries already hold.
pub open spec fn first_clash<R>(entries: Seq<Arc<RuleEntry<R>>>, rules: Seq<TableRule<R>>, k: int) -> bool {
    &&& 0 <= k < rules.len()
    &&& entry_ids(entries).contains(rules[k].rule_id.value())
    &&& forall|j: int| 0 <= j < k ==> !entry_ids(entries).contains(#[trigger] rules[j].rule_id.value())
}

/// The entries of a query: the global rules, then those filed under the query's agent,
/// flow, destination and data type, in that order.
pub open spec fn candidates<R>(t: RuleTableView<R>, q: RuleQuery) -> Seq<Arc<RuleEntry<R>>> {
    t.globals + opt_lookup(t.agents, q.agent_id) + opt_lookup(t.flows, q.flow_id) + opt_lookup(
        t.dests,
        q.dest_agent,
    ) + opt_lookup(t.dtypes, q.dtype)
}

/// The entries filed under the key, when a key is given.
pub open spec fn opt_lookup<R>(bs: Seq<(Seq<char>, Seq<Arc<RuleEntry<R>>>)>, key: Option<String>) -> Seq<Arc<RuleEntry<R>>> {
    match key {
        Some(k) => lookup(bs, k@),
        None => Seq::empty(),
    }
}

/// The first entry of each identifier, in order of first occurrence.
pub open spec fn first_of_each<R>(s: Seq<Arc<RuleEntry<R>>>) -> Seq<Arc<RuleEntry<R>>>
    decreases s.len(),
{
    if s.len() == 0 {
        s
    } else {
        let d = first_of_each(s.drop_last());
        if entry_ids(d).contains(eid(s.last())) {
            d
        } else {
            d.push(s.last())
        }
    }
}

/// `a` comes before `b` in a query's answer: higher priority first, and among equal
/// priorities the smaller identifier first.
pub open spec fn precedes<R>(a: Arc<RuleEntry<R>>, b: Arc<RuleEntry<R>>) -> bool {
    eprio(a) > eprio(b) || (eprio(a) == eprio(b) && eid(a) < eid(b))
}

/// Inserts `x` before the first entry it precedes.
pub open spec fn insert_ranked<R>(s: Seq<Arc<RuleEntry<R>>>, x: Arc<RuleEntry<R>>) -> Seq<Arc<RuleEntry<R>>>
    decreases s.len(),
{
    if s.len() == 0 {
        seq![x]
    } else if precedes(x, s[0]) {
        seq![x] + s
    } else {
        seq![s[0]] + insert_ranked(s.drop_first(), x)
    }
}

/// The entries ranked by `precedes` (an insertion sort).
pub open spec fn rank<R>(s: Seq<Arc<RuleEntry<R>>>) -> Seq<Arc<RuleEntry<R>>>
    decreases s.len(),
{
    if s.len() == 0 {
        s
    } else {
        insert_ranked(rank(s.drop_last()), s.last())
    }
}

/// The answer to a query: each candidate entry once, ranked.
pub open spec fn query_answer<R>(t: RuleTableView<R>, q: RuleQuery) -> Seq<Arc<RuleEntry<R>>> {
    rank(first_of_each(candidates(t, q)))
}

proof fn lemma_insert_ranked_at<R>(s: Seq<Arc<RuleEntry<R>>>, x: Arc<RuleEntry<R>>, pos: int)
    requires
        0 <= pos <= s.len(),
        forall|j: int| 0 <= j < pos ==> !precedes(x, #[trigger] s[j]),
        pos < s.len() ==> precedes(x, s[pos]),
    ensures
        insert_ranked(s, x) == s.insert(pos, x),
    decreases s.len(),
{
    if s.len() == 0 {
        assert(seq![x] =~= s.insert(pos, x));
    } else if pos == 0 {
        assert(seq![x] + s =~= s.insert(pos, x));
    } else {
        let t = s.drop_first();
        assert forall|j: int| 0 <= j < pos - 1 implies !precedes(x, #[trigger] t[j]) by {
            assert(t[j] == s[j + 1]);
        }
        lemma_insert_ranked_at(t, x, pos - 1);
        assert(seq![s[0]] + t.insert(pos - 1, x) =~= s.insert(pos, x));
    }
}

/// Whether an entry of priority `p` and identifier value `id` precedes `e`.
fn ranks_before<R>(p: i32, id: u128, e: &Arc<RuleEntry<R>>) -> (r: bool)
    ensures
        r == (p > eprio(*e) || (p == eprio(*e) && id < eid(*e))),
{
    let inner: &RuleEntry<R> = &**e;
    p > inner.priority || (p == inner.priority && id < inner.rule_id.as_u128())
}

/// Inserts the entry before the first one it precedes.
fn insert_ranked_into<R>(out: &mut Vec<Arc<RuleEntry<R>>>, x: Arc<RuleEntry<R>>)
    ensures
        final(out)@ == insert_ranked(old(out)@, x),
{
    let xe: &RuleEntry<R> = &*x;
    let p: i32 = xe.priority;
    let id: u128 = xe.rule_id.as_u128();
    let n = out.len();
    let mut pos: usize = 0;
    while pos < n && !ranks_before(p, id, &out[pos])
        invariant
            n == out@.len(),
            pos <= n,
            p == eprio(x),
            id == eid(x),
            forall|j: int| 0 <= j < pos ==> !precedes(x, #[trigger] out@[j]),
        decreases n - pos,
    {
        pos = pos + 1;
    }
    proof {
        lemma_insert_ranked_at(out@, x, pos as int);
    }
    out.insert(pos, x);
}

/// Whether some entry of the vector has the identifier value.
fn holds_id<R>(v: &Vec<Arc<RuleEntry<R>>>, id: u128) -> (r: bool)
    ensures
        r == entry_ids(v@).contains(id),
{
    match position_of(v, id) {
        Some(k) => {
            assert(entry_ids(v@)[k as int] == id);
            true
        },
        None => {
            proof {
                lemma_put_absent(v@, v@[0], id);
            }
            false
        },
    }
}

/// Appends shared handles of the entries of `src` to `dst`.
fn extend_entries<R>(dst: &mut Vec<Arc<RuleEntry<R>>>, src: &Vec<Arc<RuleEntry<R>>>)
    ensures
        final(dst)@ == old(dst)@ + src@,
{
    let n = src.len();
    let mut i: usize = 0;
    while i < n
        invariant
            n == src@.len(),
            i <= n,
            dst@ == old(dst)@ + src@.take(i as int),
        decreases n - i,
    {
        dst.push(arc_share(&src[i]));
        proof {
            assert(old(dst)@ + src@.take(i + 1) =~= (old(dst)@ + src@.take(i as int)).push(src@[i as int]));
        }
        i = i + 1;
    }
    assert(src@.take(n as int) =~= src@);
}

/// Appends the entries filed under the key, when a key is given.
fn extend_lookup<R>(dst: &mut Vec<Arc<RuleEntry<R>>>, bs: &Vec<IndexBucket<R>>, key: &Option<String>)
    ensures
        final(dst)@ == old(dst)@ + opt_lookup(buckets_view(bs@), *key),
{
    match key {
        Some(k) => {
            let ghost v = buckets_view(bs@);
            match bucket_position(bs, k.as_str()) {
                Some(p) => {
                    proof {
                        assert forall|j: int| 0 <= j < p implies (#[trigger] v[j]).0 != k@ by {
                            assert(v[j] == (bs@[j].key@, bs@[j].entries@));
                        }
                        lemma_file_at(v, k@, v[0].1[0], p as int);
                    }
                    extend_entries(dst, &bs[p].entries);
                },
                None => {
                    proof {
                        assert forall|j: int| 0 <= j < v.len() implies (#[trigger] v[j]).0 != k@ by {
                            assert(v[j] == (bs@[j].key@, bs@[j].entries@));
                        }
                        lemma_file_absent(v, k@, dst@[0]);
                        assert(dst@ + Seq::<Arc<RuleEntry<R>>>::empty() =~= dst@);
                    }
                },
            }
        },
        None => {
            assert(dst@ + Seq::<Arc<RuleEntry<R>>>::empty() =~= dst@);
        },
    }
}

impl<R> RuleTable<R> {
    /// Takes the rule with the identifier value out, if the table holds one.
    fn remove_id(&mut self, id: u128)
        ensures
            final(self)@ == old(self)@.remove(id),
    {
        match position_of(&self.by_id, id) {
            Some(k) => {
                proof {
                    lemma_put_at(self.by_id@, self.by_id@[k as int], k as int);
                }
                let e = arc_share(&self.by_id[k]);
                self.unindex_entry(id, &e);
            },
            None => {
                proof {
                    lemma_put_absent(self.by_id@, self.by_id@[0], id);
                }
            },
        }
    }

    /// Adds every rule of a batch, all of the bundle, and answers how many; refused,
    /// with nothing added, when one of them has an identifier the table already holds
    /// (the message names the first such rule).
    pub fn load_bundle(&mut self, rules: Vec<TableRule<R>>, bundle_id: BundleId) -> (r: Result<usize, String>)
        ensures
            match r {
                Ok(n) => {
                    &&& n == rules@.len()
                    &&& forall|k: int| 0 <= k < rules@.len() ==> !entry_ids(old(self)@.entries).contains(#[trigger] rules@[k].rule_id.value())
                    &&& exists|es: Seq<Arc<RuleEntry<R>>>| {
                        &&& es.len() == rules@.len()
                        &&& forall|k: int| 0 <= k < es.len() ==> entry_of(#[trigger] es[k], rules@[k], Some(bundle_id))
                        &&& final(self)@ == old(self)@.add_all(es)
                    }
                    &&& old(self)@.wf() ==> final(self)@.wf()
                },
                Err(msg) => {
                    &&& exists|k: int| first_clash(old(self)@.entries, rules@, k) && msg@ == exists_message(rules@[k].rule_id)
                    &&& final(self)@ == old(self)@
                },
            },
    {
        let n = rules.len();
        let mut i: usize = 0;
        while i < n
            invariant
                n == rules@.len(),
                i <= n,
                forall|j: int| 0 <= j < i ==> !entry_ids(self@.entries).contains(#[trigger] rules@[j].rule_id.value()),
            decreases n - i,
        {
            if holds_id(&self.by_id, rules[i].rule_id.as_u128()) {
                let msg = rule_message(&rules[i].rule_id, " already exists");
                proof {
                    assert(first_clash(self@.entries, rules@, i as int));
                }
                return Err(msg);
            }
            i = i + 1;
        }
        let ghost start = self@;
        let ghost orig = rules@;
        let mut rest = rules;
        let mut es: Ghost<Seq<Arc<RuleEntry<R>>>> = Ghost(Seq::empty());
        let mut k: usize = 0;
        while k < n
            invariant
                n == orig.len(),
                k <= n,
                rest@ == orig.skip(k as int),
                es@.len() == k,
                forall|j: int| 0 <= j < k ==> entry_of(#[trigger] es@[j], orig[j], Some(bundle_id)),
                self@ == start.add_all(es@),
            decreases n - k,
        {
            let tr = rest.remove(0);
            proof {
                assert(tr == orig[k as int]);
            }
            let b = BundleId(owned(bundle_id.0.as_str()));
            let e = Arc::new(RuleEntry::new(Arc::new(tr.rule), tr.rule_id, tr.priority, tr.scope, Some(b)));
            let ghost eg = e;
            self.index_entry(e);
            proof {
                let es2 = es@.push(eg);
                assert(es2.drop_last() =~= es@);
                assert forall|j: int| 0 <= j < k + 1 implies entry_of(#[trigger] es2[j], orig[j], Some(bundle_id)) by {
                    if j < k {
                        assert(es2[j] == es@[j]);
                    }
                }
                es@ = es2;
                assert(rest@ =~= orig.skip(k + 1));
            }
            k = k + 1;
        }
        proof {
            if old(self)@.wf() {
                lemma_add_all_wf(start, es@);
            }
        }
        Ok(n)
    }

    /// Removes every rule of the bundle and answers how many.
    pub fn unload_bundle(&mut self, bundle_id: &BundleId) -> (r: Result<usize, String>)
        ensures
            r == Ok::<usize, String>(bundle_rule_ids(old(self)@.entries, *bundle_id).len() as usize),
            final(self)@ == old(self)@.remove_all(bundle_rule_ids(old(self)@.entries, *bundle_id)),
            old(self)@.wf() ==> final(self)@.wf(),
    {
        let mut ids: Vec<u128> = Vec::new();
        let n = self.by_id.len();
        let mut i: usize = 0;
        while i < n
            invariant
                n == self.by_id@.len(),
                i <= n,
                ids@ == bundle_rule_ids(self.by_id@.take(i as int), *bundle_id),
            decreases n - i,
        {
            proof {
                assert(self.by_id@.take(i + 1).drop_last() =~= self.by_id@.take(i as int));
                assert(self.by_id@.take(i + 1).last() == self.by_id@[i as int]);
            }
            let e: &RuleEntry<R> = &*self.by_id[i];
            let belongs = match &e.bundle_id {
                Some(b) => str_eq(b.0.as_str(), bundle_id.0.as_str()),
                None => false,
            };
            if belongs {
                ids.push(e.rule_id.as_u128());
            }
            i = i + 1;
        }
        proof {
            assert(self.by_id@.take(n as int) =~= self.by_id@);
        }
        let ghost start = self@;
        let m = ids.len();
        let mut j: usize = 0;
        while j < m
            invariant
                m == ids@.len(),
                j <= m,
                self@ == start.remove_all(ids@.take(j as int)),
            decreases m - j,
        {
            proof {
                assert(ids@.take(j + 1).drop_last() =~= ids@.take(j as int));
            }
            self.remove_id(ids[j]);
            j = j + 1;
        }
        proof {
            assert(ids@.take(m as int) =~= ids@);
            if old(self)@.wf() {
                lemma_remove_all_wf(start, ids@);
            }
        }
        Ok(m)
    }

    /// Replaces the statistics of the rule with the identifier by what `update_fn`
    /// makes of them; an error when no rule has it. Only the primary index sees the
    /// new statistics: the secondary indexes keep the entry they were given.
    pub fn update_stats<F: FnOnce(RuleStats) -> RuleStats>(&mut self, rule_id: &RuleId, update_fn: F) -> (r: Result<(), String>)
        requires
            forall|s: RuleStats| update_fn.requires((s,)),
        ensures
            match r {
                Ok(()) => exists|e: Arc<RuleEntry<R>>, e2: Arc<RuleEntry<R>>, s: RuleStats| {
                    &&& find_entry(old(self)@.entries, rule_id.value()) == Some(e)
                    &&& update_fn.ensures((e.stats,), s)
                    &&& restated(e, e2, s)
                    &&& final(self)@ == RuleTableView { entries: put_entry(old(self)@.entries, e2), ..old(self)@ }
                    &&& old(self)@.wf() ==> final(self)@.wf()
                },
                Err(msg) => {
                    &&& find_entry(old(self)@.entries, rule_id.value()) is None
                    &&& msg@ == not_found_message(*rule_id)
                    &&& final(self)@ == old(self)@
                },
            },
    {
        match position_of(&self.by_id, rule_id.as_u128()) {
            Some(k) => {
                let e = arc_share(&self.by_id[k]);
                let inner: &RuleEntry<R> = &*e;
                let s = update_fn(inner.stats);
                let scope = RuleScope {
                    is_global: inner.scope.is_global,
                    agent_ids: copy_agent_ids(&inner.scope.agent_ids),
                    flow_ids: copy_flow_ids(&inner.scope.flow_ids),
                    dest_agent_ids: copy_agent_ids(&inner.scope.dest_agent_ids),
                    payload_dtypes: copy_texts(&inner.scope.payload_dtypes),
                };
                let bundle_id = match &inner.bundle_id {
                    Some(b) => Some(BundleId(owned(b.0.as_str()))),
                    None => None,
                };
                let e2 = Arc::new(RuleEntry {
                    rule: arc_share(&inner.rule),
                    rule_id: inner.rule_id,
                    priority: inner.priority,
                    scope,
                    activated_at: inner.activated_at,
                    bundle_id,
                    stats: s,
                });
                proof {
                    lemma_put_at(self.by_id@, self.by_id@[k as int], k as int);
                    lemma_put_at(self.by_id@, e2, k as int);
                }
                let ghost e2g = e2;
                self.by_id.set(k, e2);
                proof {
                    assert(self@.cache =~= old(self)@.cache);
                    assert(restated(e, e2g, s));
                    assert(self@ == RuleTableView { entries: put_entry(old(self)@.entries, e2g), ..old(self)@ });
                    if old(self)@.wf() {
                        lemma_put_keeps_wf(old(self)@.entries, e2g);
                    }
                }
                Ok(())
            },
            None => {
                proof {
                    lemma_put_absent(self.by_id@, self.by_id@[0], rule_id.value());
                }
                Err(rule_message(rule_id, " not found"))
            },
        }
    }

    /// The rules that apply to the query: the global rules and those filed under its
    /// agent, flow, destination and data type, each rule once, highest priority first
    /// and, among equal priorities, by identifier (which is the order of the
    /// identifiers' text, see `lemma_rank_ties_by_text`).
    pub fn query(&self, query: &RuleQuery) -> (r: Vec<Arc<RuleEntry<R>>>)
        ensures
            r@ == query_answer(self@, *query),
    {
        let mut cands: Vec<Arc<RuleEntry<R>>> = Vec::new();
        extend_entries(&mut cands, &self.global);
        extend_lookup(&mut cands, &self.by_agent, &query.agent_id);
        extend_lookup(&mut cands, &self.by_flow, &query.flow_id);
        extend_lookup(&mut cands, &self.by_dest_agent, &query.dest_agent);
        extend_lookup(&mut cands, &self.by_dtype, &query.dtype);
        proof {
            assert(cands@ =~= candidates(self@, *query));
        }
        let mut unique: Vec<Arc<RuleEntry<R>>> = Vec::new();
        let n = cands.len();
        let mut i: usize = 0;
        while i < n
            invariant
                n == cands@.len(),
                i <= n,
                unique@ == first_of_each(cands@.take(i as int)),
            decreases n - i,
        {
            proof {
                assert(cands@.take(i + 1).drop_last() =~= cands@.take(i as int));
                assert(cands@.take(i + 1).last() == cands@[i as int]);
            }
            let e: &RuleEntry<R> = &*cands[i];
            if !holds_id(&unique, e.rule_id.as_u128()) {
                unique.push(arc_share(&cands[i]));
            }
            i = i + 1;
        }
        proof {
            assert(cands@.take(n as int) =~= cands@);
        }
        let mut out: Vec<Arc<RuleEntry<R>>> = Vec::new();
        let m = unique.len();
        let mut j: usize = 0;
        while j < m
            invariant
                m == unique@.len(),
                j <= m,
                out@ == rank(unique@.take(j as int)),
            decreases m - j,
        {
            proof {
                assert(unique@.take(j + 1).drop_last() =~= unique@.take(j as int));
                assert(unique@.take(j + 1).last() == unique@[j as int]);
            }
            insert_ranked_into(&mut out, arc_share(&unique[j]));
            j = j + 1;
        }
        proof {
            assert(unique@.take(m as int) =~= unique@);
        }
        out
    }

    /// The identifiers of the rules, in the primary index's order.
    pub fn list_rule_ids(&self) -> (r: Vec<RuleId>)
        ensures
            r@ == self@.entries.map_values(|e: Arc<RuleEntry<R>>| e.rule_id),
    {
        let mut out: Vec<RuleId> = Vec::new();
        let n = self.by_id.len();
        let mut i: usize = 0;
        while i < n
            invariant
                n == self.by_id@.len(),
                i <= n,
                out@ == self.by_id@.take(i as int).map_values(|e: Arc<RuleEntry<R>>| e.rule_id),
            decreases n - i,
        {
            let e: &RuleEntry<R> = &*self.by_id[i];
            out.push(e.rule_id);
            proof {
                assert(out@ =~= self.by_id@.take(i + 1).map_values(|e: Arc<RuleEntry<R>>| e.rule_id));
            }
            i = i + 1;
        }
        proof {
            assert(self.by_id@.take(n as int) =~= self.by_id@);
        }
        out
    }

    /// Sizes of the table, its indexes and its cache.
    pub fn get_table_stats(&self) -> (r: TableStats)
        ensures
            r.total_rules == self@.entries.len(),
            r.global_rules == self@.globals.len(),
            r.agent_indexes == self@.agents.len(),
            r.flow_indexes == self@.flows.len(),
            r.dest_agent_indexes == self@.dests.len(),
            r.dtype_indexes == self@.dtypes.len(),
            r.cache_size == self@.cache.len(),
    {
        TableStats {
            total_rules: self.by_id.len(),
            global_rules: self.global.len(),
            agent_indexes: self.by_agent.len(),
            flow_indexes: self.by_flow.len(),
            dest_agent_indexes: self.by_dest_agent.len(),
            dtype_indexes: self.by_dtype.len(),
            cache_size: self.cache.len(),
        }
    }
}

/// A copy of a list of agent ids.
fn copy_agent_ids(v: &Vec<crate::engine::rule_metadata::AgentId>) -> (r: Vec<crate::engine::rule_metadata::AgentId>)
    ensures
        agent_texts(r@) == agent_texts(v@),
{
    let mut out: Vec<crate::engine::rule_metadata::AgentId> = Vec::new();
    let n = v.len();
    let mut i: usize = 0;
    while i < n
        invariant
            n == v@.len(),
            i <= n,
            agent_texts(out@) == agent_texts(v@.take(i as int)),
        decreases n - i,
    {
        let ghost prev = out@;
        out.push(v[i].duplicate());
        proof {
            assert(agent_texts(out@) =~= agent_texts(prev).push(v@[i as int]@));
            assert(v@.take(i + 1) =~= v@.take(i as int).push(v@[i as int]));
            assert(agent_texts(v@.take(i + 1)) =~= agent_texts(v@.take(i as int)).push(v@[i as int]@));
        }
        i = i + 1;
    }
    assert(v@.take(n as int) =~= v@);
    out
}

/// A copy of a list of flow ids.
fn copy_flow_ids(v: &Vec<crate::engine::rule_metadata::FlowId>) -> (r: Vec<crate::engine::rule_metadata::FlowId>)
    ensures
        flow_texts(r@) == flow_texts(v@),
{
    let mut out: Vec<crate::engine::rule_metadata::FlowId> = Vec::new();
    let n = v.len();
    let mut i: usize = 0;
    while i < n
        invariant
            n == v@.len(),
            i <= n,
            flow_texts(out@) == flow_texts(v@.take(i as int)),
        decreases n - i,
    {
        let ghost prev = out@;
        out.push(v[i].duplicate());
        proof {
            assert(flow_texts(out@) =~= flow_texts(prev).push(v@[i as int]@));
            assert(v@.take(i + 1) =~= v@.take(i as int).push(v@[i as int]));
            assert(flow_texts(v@.take(i + 1)) =~= flow_texts(v@.take(i as int)).push(v@[i as int]@));
        }
        i = i + 1;
    }
    assert(v@.take(n as int) =~= v@);
    out
}

/// A copy of a list of strings.
fn copy_texts(v: &Vec<String>) -> (r: Vec<String>)
    ensures
        strs_view(r@) == strs_view(v@),
{
    text_list(v)
}


/// A cached decision as values: agent, flow, event hash, rule, decision, time cached.
pub type CachedDecision = (Seq<char>, Seq<char>, u64, RuleId, Seq<char>, u128);

/// A decision cached at `cached_at` is stale at `now` when the clock reads earlier than
/// that, or when more than the time to live has passed since.
pub open spec fn expired(cached_at: u128, ttl_seconds: u64, now: u128) -> bool {
    now < cached_at || now - cached_at > ttl_seconds * 1_000_000_000
}

/// The cached decisions still fresh at `now`, in order.
pub open spec fn fresh_decisions(c: Seq<CachedDecision>, ttl_seconds: u64, now: u128) -> Seq<CachedDecision> {
    c.filter(|d: CachedDecision| !expired(d.5, ttl_seconds, now))
}

/// The first cached decision for the agent, flow and event hash.
pub open spec fn find_decision(c: Seq<CachedDecision>, agent: Seq<char>, flow: Seq<char>, hash: u64) -> Option<CachedDecision>
    decreases c.len(),
{
    if c.len() == 0 {
        None
    } else if c[0].0 == agent && c[0].1 == flow && c[0].2 == hash {
        Some(c[0])
    } else {
        find_decision(c.drop_first(), agent, flow, hash)
    }
}

/// The decisions with the first one for the same agent, flow and event hash replaced by
/// `d`, or `d` appended when there is none (a map insertion keyed by the three).
pub open spec fn upsert_decision(c: Seq<CachedDecision>, d: CachedDecision) -> Seq<CachedDecision>
    decreases c.len(),
{
    if c.len() == 0 {
        seq![d]
    } else if c[0].0 == d.0 && c[0].1 == d.1 && c[0].2 == d.2 {
        seq![d] + c.drop_first()
    } else {
        seq![c[0]] + upsert_decision(c.drop_first(), d)
    }
}

/// The cache made room for a new decision: when full, stale decisions go, and when it
/// is still full, the first tenth of what is left goes too.
pub open spec fn make_room(c: Seq<CachedDecision>, max: usize, ttl_seconds: u64, now: u128) -> Seq<CachedDecision> {
    if c.len() >= max {
        let f = fresh_decisions(c, ttl_seconds, now);
        if f.len() >= max {
            f.skip((f.len() / 10) as int)
        } else {
            f
        }
    } else {
        c
    }
}

impl<R> RuleTableView<R> {
    /// The decision cached for the agent, flow and event hash, if it is fresh at `now`.
    pub open spec fn cached_at(self, agent: Seq<char>, flow: Seq<char>, hash: u64, now: u128) -> Option<(RuleId, Seq<char>)> {
        match find_decision(self.cache, agent, flow, hash) {
            Some(d) => if expired(d.5, self.cache_ttl_seconds, now) {
                None
            } else {
                Some((d.3, d.4))
            },
            None => None,
        }
    }

    /// The table after a decision is cached at `now`.
    pub open spec fn cache_at(self, agent: Seq<char>, flow: Seq<char>, hash: u64, rule_id: RuleId, decision: Seq<char>, now: u128) -> Self {
        RuleTableView {
            cache: upsert_decision(
                make_room(self.cache, self.max_cache_size, self.cache_ttl_seconds, now),
                (agent, flow, hash, rule_id, decision, now),
            ),
            ..self
        }
    }
}

/// Whether a decision cached at `cached_at` is stale at `now`.
fn stale(cached_at: u128, ttl_seconds: u64, now: u128) -> (r: bool)
    ensures
        r == expired(cached_at, ttl_seconds, now),
{
    if now < cached_at {
        true
    } else {
        let ttl_ns: u128 = (ttl_seconds as u128) * 1_000_000_000u128;
        now - cached_at > ttl_ns
    }
}

/// A copy of a cached decision.
fn copy_slot(s: &CacheSlot) -> (r: CacheSlot)
    ensures
        slot_view(r) == slot_view(*s),
{
    CacheSlot {
        agent_id: owned(s.agent_id.as_str()),
        flow_id: owned(s.flow_id.as_str()),
        event_hash: s.event_hash,
        rule_id: s.rule_id,
        decision: owned(s.decision.as_str()),
        cached_at: s.cached_at,
    }
}

/// The views of a list of cached decisions.
spec fn slots_view(v: Seq<CacheSlot>) -> Seq<CachedDecision> {
    v.map_values(|s: CacheSlot| slot_view(s))
}

/// The decisions of `v` still fresh at `now`.
fn keep_fresh(v: &Vec<CacheSlot>, ttl_seconds: u64, now: u128) -> (r: Vec<CacheSlot>)
    ensures
        slots_view(r@) == fresh_decisions(slots_view(v@), ttl_seconds, now),
{
    let mut out: Vec<CacheSlot> = Vec::new();
    let n = v.len();
    let mut i: usize = 0;
    while i < n
        invariant
            n == v@.len(),
            i <= n,
            slots_view(out@) == fresh_decisions(slots_view(v@).take(i as int), ttl_seconds, now),
        decreases n - i,
    {
        proof {
            reveal(Seq::filter);
            assert(slots_view(v@).take(i + 1).drop_last() =~= slots_view(v@).take(i as int));
            assert(slots_view(v@).take(i + 1).last() == slot_view(v@[i as int]));
        }
        if !stale(v[i].cached_at, ttl_seconds, now) {
            let ghost prev = out@;
            out.push(copy_slot(&v[i]));
            proof {
                assert(slots_view(out@) =~= slots_view(prev).push(slot_view(v@[i as int])));
            }
        }
        i = i + 1;
    }
    proof {
        assert(slots_view(v@).take(n as int) =~= slots_view(v@));
    }
    out
}

/// The decisions of `v` from position `from` on.
fn slots_from(v: &Vec<CacheSlot>, from: usize) -> (r: Vec<CacheSlot>)
    requires
        from <= v@.len(),
    ensures
        slots_view(r@) == slots_view(v@).skip(from as int),
{
    let mut out: Vec<CacheSlot> = Vec::new();
    let n = v.len();
    let mut i: usize = from;
    while i < n
        invariant
            n == v@.len(),
            from <= i <= n,
            slots_view(out@) == slots_view(v@).subrange(from as int, i as int),
        decreases n - i,
    {
        let ghost prev = out@;
        out.push(copy_slot(&v[i]));
        proof {
            assert(slots_view(out@) =~= slots_view(prev).push(slot_view(v@[i as int])));
            assert(slots_view(v@).subrange(from as int, i + 1) =~= slots_view(v@).subrange(from as int, i as int).push(
                slot_view(v@[i as int]),
            ));
        }
        i = i + 1;
    }
    proof {
        assert(slots_view(v@).subrange(from as int, n as int) =~= slots_view(v@).skip(from as int));
    }
    out
}

proof fn lemma_upsert_at(c: Seq<CachedDecision>, d: CachedDecision, k: int)
    requires
        0 <= k < c.len(),
        c[k].0 == d.0 && c[k].1 == d.1 && c[k].2 == d.2,
        forall|j: int| 0 <= j < k ==> !((#[trigger] c[j]).0 == d.0 && c[j].1 == d.1 && c[j].2 == d.2),
    ensures
        upsert_decision(c, d) == c.update(k, d),
        find_decision(c, d.0, d.1, d.2) == Some(c[k]),
    decreases c.len(),
{
    if k == 0 {
        assert(seq![d] + c.drop_first() =~= c.update(0, d));
    } else {
        let t = c.drop_first();
        assert forall|j: int| 0 <= j < k - 1 implies !((#[trigger] t[j]).0 == d.0 && t[j].1 == d.1 && t[j].2 == d.2) by {
            assert(t[j] == c[j + 1]);
        }
        lemma_upsert_at(t, d, k - 1);
        assert(seq![c[0]] + t.update(k - 1, d) =~= c.update(k, d));
    }
}

proof fn lemma_upsert_absent(c: Seq<CachedDecision>, d: CachedDecision)
    requires
        forall|j: int| 0 <= j < c.len() ==> !((#[trigger] c[j]).0 == d.0 && c[j].1 == d.1 && c[j].2 == d.2),
    ensures
        upsert_decision(c, d) == c.push(d),
        find_decision(c, d.0, d.1, d.2) is None,
    decreases c.len(),
{
    if c.len() == 0 {
        assert(seq![d] =~= c.push(d));
    } else {
        let t = c.drop_first();
        assert forall|j: int| 0 <= j < t.len() implies !((#[trigger] t[j]).0 == d.0 && t[j].1 == d.1 && t[j].2 == d.2) by {
            assert(t[j] == c[j + 1]);
        }
        lemma_upsert_absent(t, d);
        assert(seq![c[0]] + t.push(d) =~= c.push(d));
    }
}

/// The position of the first decision cached for the agent, flow and event hash.
fn slot_position(v: &Vec<CacheSlot>, agent: &str, flow: &str, hash: u64) -> (r: Option<usize>)
    ensures
        match r {
            Some(k) => k < v@.len() && slots_view(v@)[k as int].0 == agent@ && slots_view(v@)[k as int].1 == flow@
                && slots_view(v@)[k as int].2 == hash && forall|j: int|
                0 <= j < k ==> !((#[trigger] slots_view(v@)[j]).0 == agent@ && slots_view(v@)[j].1 == flow@
                    && slots_view(v@)[j].2 == hash),
            None => forall|j: int|
                0 <= j < v@.len() ==> !((#[trigger] slots_view(v@)[j]).0 == agent@ && slots_view(v@)[j].1 == flow@
                    && slots_view(v@)[j].2 == hash),
        },
{
    let n = v.len();
    let mut i: usize = 0;
    while i < n
        invariant
            n == v@.len(),
            i <= n,
            forall|j: int|
                0 <= j < i ==> !((#[trigger] slots_view(v@)[j]).0 == agent@ && slots_view(v@)[j].1 == flow@
                    && slots_view(v@)[j].2 == hash),
        decreases n - i,
    {
        if v[i].event_hash == hash && str_eq(v[i].agent_id.as_str(), agent) && str_eq(v[i].flow_id.as_str(), flow) {
            return Some(i);
        }
        i = i + 1;
    }
    None
}

impl<R> RuleTable<R> {
    /// The decision cached for the agent, flow and event hash, when it is fresh at `now`.
    pub fn get_cached_decision_at(&self, agent_id: &str, flow_id: &str, event_hash: u64, now: u128) -> (r: Option<(RuleId, String)>)
        ensures
            match r {
                Some((id, d)) => self@.cached_at(agent_id@, flow_id@, event_hash, now) == Some((id, d@)),
                None => self@.cached_at(agent_id@, flow_id@, event_hash, now) is None,
            },
    {
        let ghost c = slots_view(self.cache@);
        proof {
            assert(self@.cache == c);
        }
        match slot_position(&self.cache, agent_id, flow_id, event_hash) {
            Some(k) => {
                proof {
                    lemma_upsert_at(c, (agent_id@, flow_id@, event_hash, c[k as int].3, c[k as int].4, c[k as int].5), k as int);
                }
                if stale(self.cache[k].cached_at, self.cache_ttl_seconds, now) {
                    None
                } else {
                    Some((self.cache[k].rule_id, owned(self.cache[k].decision.as_str())))
                }
            },
            None => {
                proof {
                    lemma_upsert_absent(c, (agent_id@, flow_id@, event_hash, vstd::pervasive::arbitrary(), Seq::empty(), 0));
                }
                None
            },
        }
    }

    /// The decision cached for the agent, flow and event hash, when it is fresh now
    /// (the time is read from the clock).
    pub fn get_cached_decision(&self, agent_id: &str, flow_id: &str, event_hash: u64) -> (r: Option<(RuleId, String)>)
        ensures
            (exists|now: u128|
                match r {
                    Some((id, d)) => self@.cached_at(agent_id@, flow_id@, event_hash, now) == Some((id, d@)),
                    None => self@.cached_at(agent_id@, flow_id@, event_hash, now) is None,
                }),
    {
        let now = unix_now_nanos();
        self.get_cached_decision_at(agent_id, flow_id, event_hash, now)
    }

    /// Caches a decision made at `now`, making room first when the cache is full.
    pub fn cache_decision_at(
        &mut self,
        agent_id: &str,
        flow_id: &str,
        event_hash: u64,
        rule_id: RuleId,
        decision: String,
        now: u128,
    ) -> (r: Result<(), String>)
        ensures
            r is Ok,
            final(self)@ == old(self)@.cache_at(agent_id@, flow_id@, event_hash, rule_id, decision@, now),
    {
        if self.cache.len() >= self.max_cache_size {
            let fresh = keep_fresh(&self.cache, self.cache_ttl_seconds, now);
            if fresh.len() >= self.max_cache_size {
                let to_remove = fresh.len() / 10;
                self.cache = slots_from(&fresh, to_remove);
            } else {
                self.cache = fresh;
            }
        }
        let ghost c = slots_view(self.cache@);
        let slot = CacheSlot {
            agent_id: owned(agent_id),
            flow_id: owned(flow_id),
            event_hash,
            rule_id,
            decision,
            cached_at: now,
        };
        let ghost d = slot_view(slot);
        match slot_position(&self.cache, agent_id, flow_id, event_hash) {
            Some(k) => {
                proof {
                    lemma_upsert_at(c, d, k as int);
                }
                self.cache.set(k, slot);
                proof {
                    assert(slots_view(self.cache@) =~= c.update(k as int, d));
                }
            },
            None => {
                proof {
                    lemma_upsert_absent(c, d);
                }
                self.cache.push(slot);
                proof {
                    assert(slots_view(self.cache@) =~= c.push(d));
                }
            },
        }
        Ok(())
    }

    /// Caches a decision made now (the time is read from the clock).
    pub fn cache_decision(&mut self, agent_id: &str, flow_id: &str, event_hash: u64, rule_id: RuleId, decision: String) -> (r: Result<(), String>)
        ensures
            r is Ok,
            (exists|now: u128| final(self)@ == old(self)@.cache_at(agent_id@, flow_id@, event_hash, rule_id, decision@, now)),
    {
        let now = unix_now_nanos();
        self.cache_decision_at(agent_id, flow_id, event_hash, rule_id, decision, now)
    }

    /// Empties the cache.
    pub fn clear_cache(&mut self) -> (r: Result<(), String>)
        ensures
            r is Ok,
            final(self)@ == (RuleTableView { cache: Seq::empty(), ..old(self)@ }),
    {
        self.cache = Vec::new();
        proof {
            assert(self@.cache =~= Seq::<CachedDecision>::empty());
        }
        Ok(())
    }

    /// Drops the decisions stale at `now` and answers how many went.
    pub fn evict_expired_cache_at(&mut self, now: u128) -> (r: usize)
        ensures
            final(self)@ == (RuleTableView {
                cache: fresh_decisions(old(self)@.cache, old(self)@.cache_ttl_seconds, now),
                ..old(self)@
            }),
            r == old(self)@.cache.len() - final(self)@.cache.len(),
    {
        let before = self.cache.len();
        let fresh = keep_fresh(&self.cache, self.cache_ttl_seconds, now);
        proof {
            let c = slots_view(self.cache@);
            assert(c.filter(|d: CachedDecision| !expired(d.5, self.cache_ttl_seconds, now)).len() <= c.len());
            assert(slots_view(fresh@).len() == fresh@.len());
        }
        self.cache = fresh;
        before - self.cache.len()
    }

    /// Drops the decisions stale now (the time is read from the clock) and answers how
    /// many went.
    pub fn evict_expired_cache(&mut self) -> (r: usize)
        ensures
            (exists|now: u128|
                final(self)@ == (RuleTableView {
                    cache: #[trigger] fresh_decisions(old(self)@.cache, old(self)@.cache_ttl_seconds, now),
                    ..old(self)@
                })),
            r == old(self)@.cache.len() - final(self)@.cache.len(),
    {
        let now = unix_now_nanos();
        self.evict_expired_cache_at(now)
    }
}


// ---------------------------------------------------------------------------
// Laws
// ---------------------------------------------------------------------------

/// Each entry precedes every later one.
pub open spec fn ranked<R>(s: Seq<Arc<RuleEntry<R>>>) -> bool {
    forall|i: int, j: int| 0 <= i < j < s.len() ==> precedes(#[trigger] s[i], #[trigger] s[j])
}

proof fn lemma_ids_contains<R>(s: Seq<Arc<RuleEntry<R>>>, k: int)
    requires
        0 <= k < s.len(),
    ensures
        entry_ids(s).contains(eid(s[k])),
{
    assert(entry_ids(s)[k] == eid(s[k]));
}

proof fn lemma_insert_ranked_keeps<R>(s: Seq<Arc<RuleEntry<R>>>, x: Arc<RuleEntry<R>>)
    requires
        ranked(s),
        !entry_ids(s).contains(eid(x)),
    ensures
        ranked(insert_ranked(s, x)),
        insert_ranked(s, x).to_multiset() =~= s.to_multiset().insert(x),
    decreases s.len(),
{
    broadcast use vstd::seq_lib::group_to_multiset_ensures;
    broadcast use vstd::seq_lib::lemma_multiset_commutative;
    if s.len() == 0 {
        assert(seq![x] =~= Seq::<Arc<RuleEntry<R>>>::empty().push(x));
    } else {
        let t = s.drop_first();
        assert(s =~= seq![s[0]] + t);
        assert(seq![s[0]] =~= Seq::<Arc<RuleEntry<R>>>::empty().push(s[0]));
        assert(seq![x] =~= Seq::<Arc<RuleEntry<R>>>::empty().push(x));
        if precedes(x, s[0]) {
            let r = seq![x] + s;
            assert forall|i: int, j: int| 0 <= i < j < r.len() implies precedes(#[trigger] r[i], #[trigger] r[j]) by {
                if i == 0 {
                    assert(r[j] == s[j - 1]);
                    if j - 1 > 0 {
                        assert(precedes(s[0], s[j - 1]));
                    }
                } else {
                    assert(r[i] == s[i - 1] && r[j] == s[j - 1]);
                }
            }
        } else {
            lemma_ids_contains(s, 0);
            assert(precedes(s[0], x));
            assert(ranked(t)) by {
                assert forall|i: int, j: int| 0 <= i < j < t.len() implies precedes(#[trigger] t[i], #[trigger] t[j]) by {
                    assert(t[i] == s[i + 1] && t[j] == s[j + 1]);
                }
            }
            assert(!entry_ids(t).contains(eid(x))) by {
                if entry_ids(t).contains(eid(x)) {
                    let k = choose|k: int| 0 <= k < entry_ids(t).len() && entry_ids(t)[k] == eid(x);
                    assert(t[k] == s[k + 1]);
                    lemma_ids_contains(s, k + 1);
                }
            }
            lemma_insert_ranked_keeps(t, x);
            let rest = insert_ranked(t, x);
            let r = seq![s[0]] + rest;
            assert forall|i: int, j: int| 0 <= i < j < r.len() implies precedes(#[trigger] r[i], #[trigger] r[j]) by {
                if i == 0 {
                    let y = rest[j - 1];
                    assert(rest.contains(y));
                    assert(rest.to_multiset().count(y) > 0);
                    if y != x {
                        assert(t.to_multiset().count(y) > 0);
                        assert(t.contains(y));
                        let k = choose|k: int| 0 <= k < t.len() && t[k] == y;
                        assert(s[k + 1] == y);
                    }
                } else {
                    assert(r[i] == rest[i - 1] && r[j] == rest[j - 1]);
                }
            }
        }
    }
}

proof fn lemma_rank<R>(s: Seq<Arc<RuleEntry<R>>>)
    requires
        entry_ids(s).no_duplicates(),
    ensures
        ranked(rank(s)),
        rank(s).to_multiset() =~= s.to_multiset(),
    decreases s.len(),
{
    broadcast use vstd::seq_lib::group_to_multiset_ensures;
    if s.len() > 0 {
        let p = s.drop_last();
        assert(entry_ids(p).no_duplicates()) by {
            assert forall|i: int, j: int| 0 <= i < entry_ids(p).len() && 0 <= j < entry_ids(p).len() && i != j
                implies entry_ids(p)[i] != entry_ids(p)[j] by {
                assert(entry_ids(p)[i] == entry_ids(s)[i] && entry_ids(p)[j] == entry_ids(s)[j]);
            }
        }
        lemma_rank(p);
        let rp = rank(p);
        assert(!entry_ids(rp).contains(eid(s.last()))) by {
            if entry_ids(rp).contains(eid(s.last())) {
                let k = choose|k: int| 0 <= k < entry_ids(rp).len() && entry_ids(rp)[k] == eid(s.last());
                let y = rp[k];
                assert(rp.contains(y));
                assert(rp.to_multiset().count(y) > 0);
                assert(p.to_multiset().count(y) > 0);
                assert(p.contains(y));
                let m = choose|m: int| 0 <= m < p.len() && p[m] == y;
                assert(entry_ids(s)[m] == eid(y));
                assert(entry_ids(s)[s.len() - 1] == eid(s.last()));
            }
        }
        lemma_insert_ranked_keeps(rp, s.last());
        assert(p.push(s.last()) =~= s);
    }
}

proof fn lemma_first_of_each<R>(s: Seq<Arc<RuleEntry<R>>>)
    ensures
        entry_ids(first_of_each(s)).no_duplicates(),
        forall|e: Arc<RuleEntry<R>>| first_of_each(s).contains(e) ==> s.contains(e),
        entry_ids(first_of_each(s)).to_set() =~= entry_ids(s).to_set(),
    decreases s.len(),
{
    if s.len() > 0 {
        let p = s.drop_last();
        lemma_first_of_each(p);
        let d = first_of_each(p);
        let x = s.last();
        assert(s =~= p.push(x));
        assert(entry_ids(s) =~= entry_ids(p).push(eid(x)));
        entry_ids(p).lemma_push_to_set_commute(eid(x));
        if !entry_ids(d).contains(eid(x)) {
            assert(entry_ids(d.push(x)) =~= entry_ids(d).push(eid(x)));
            entry_ids(d).lemma_push_to_set_commute(eid(x));
            assert forall|e: Arc<RuleEntry<R>>| d.push(x).contains(e) implies s.contains(e) by {
                if e != x {
                    let k = choose|k: int| 0 <= k < d.push(x).len() && d.push(x)[k] == e;
                    assert(d.contains(e));
                    assert(p.contains(e));
                    let m = choose|m: int| 0 <= m < p.len() && p[m] == e;
                    assert(s[m] == e);
                } else {
                    assert(s[s.len() - 1] == e);
                }
            }
        } else {
            assert(entry_ids(d).to_set().contains(eid(x)));
            assert forall|e: Arc<RuleEntry<R>>| d.contains(e) implies s.contains(e) by {
                assert(p.contains(e));
                let m = choose|m: int| 0 <= m < p.len() && p[m] == e;
                assert(s[m] == e);
            }
        }
    }
}

/// The answer to a query lists each rule once, ranked (higher priority first, then
/// smaller identifier), holds only entries the query's indexes hold, and misses no
/// rule they hold.
pub proof fn lemma_query_answer<R>(t: RuleTableView<R>, q: RuleQuery)
    ensures
        ranked(query_answer(t, q)),
        entry_ids(query_answer(t, q)).no_duplicates(),
        forall|e: Arc<RuleEntry<R>>| query_answer(t, q).contains(e) ==> candidates(t, q).contains(e),
        entry_ids(query_answer(t, q)).to_set() =~= entry_ids(candidates(t, q)).to_set(),
{
    broadcast use vstd::seq_lib::group_to_multiset_ensures;
    let c = candidates(t, q);
    let d = first_of_each(c);
    lemma_first_of_each(c);
    lemma_rank(d);
    let a = rank(d);
    assert forall|e: Arc<RuleEntry<R>>| a.contains(e) implies d.contains(e) by {
        assert(a.to_multiset().count(e) > 0);
    }
    assert forall|e: Arc<RuleEntry<R>>| d.contains(e) implies a.contains(e) by {
        assert(d.to_multiset().count(e) > 0);
    }
    assert(entry_ids(a).to_set() =~= entry_ids(d).to_set()) by {
        assert forall|v: u128| entry_ids(a).to_set().contains(v) implies entry_ids(d).to_set().contains(v) by {
            let k = choose|k: int| 0 <= k < entry_ids(a).len() && entry_ids(a)[k] == v;
            assert(a.contains(a[k]));
            let m = choose|m: int| 0 <= m < d.len() && d[m] == a[k];
            assert(entry_ids(d)[m] == v);
        }
        assert forall|v: u128| entry_ids(d).to_set().contains(v) implies entry_ids(a).to_set().contains(v) by {
            let k = choose|k: int| 0 <= k < entry_ids(d).len() && entry_ids(d)[k] == v;
            assert(d.contains(d[k]));
            let m = choose|m: int| 0 <= m < a.len() && a[m] == d[k];
            assert(entry_ids(a)[m] == v);
        }
    }
    assert(entry_ids(a).no_duplicates()) by {
        assert forall|i: int, j: int| 0 <= i < entry_ids(a).len() && 0 <= j < entry_ids(a).len() && i != j
            implies entry_ids(a)[i] != entry_ids(a)[j] by {
            if entry_ids(a)[i] == entry_ids(a)[j] {
                assert(a.contains(a[i]) && a.contains(a[j]));
                let m1 = choose|m: int| 0 <= m < d.len() && d[m] == a[i];
                let m2 = choose|m: int| 0 <= m < d.len() && d[m] == a[j];
                assert(entry_ids(d)[m1] == entry_ids(d)[m2]);
                if i < j {
                    assert(precedes(a[i], a[j]));
                } else {
                    assert(precedes(a[j], a[i]));
                }
            }
        }
    }
}

proof fn lemma_find_unique<R>(s: Seq<Arc<RuleEntry<R>>>, id: u128)
    requires
        entry_ids(s).no_duplicates(),
    ensures
        forall|j: int| 0 <= j < s.len() && eid(#[trigger] s[j]) == id ==> find_entry(s, id) == Some(s[j]),
        (forall|j: int| 0 <= j < s.len() ==> eid(#[trigger] s[j]) != id) ==> find_entry(s, id) is None,
{
    assert forall|j: int| 0 <= j < s.len() && eid(#[trigger] s[j]) == id implies find_entry(s, id) == Some(s[j]) by {
        assert forall|i: int| 0 <= i < j implies eid(#[trigger] s[i]) != eid(s[j]) by {
            assert(entry_ids(s)[i] == eid(s[i]) && entry_ids(s)[j] == eid(s[j]));
        }
        lemma_put_at(s, s[j], j);
    }
    if forall|j: int| 0 <= j < s.len() ==> eid(#[trigger] s[j]) != id {
        lemma_put_absent(s, s[0], id);
    }
}

proof fn lemma_put_keeps_wf<R>(s: Seq<Arc<RuleEntry<R>>>, e: Arc<RuleEntry<R>>)
    requires
        entry_ids(s).no_duplicates(),
    ensures
        entry_ids(put_entry(s, e)).no_duplicates(),
        find_entry(put_entry(s, e), eid(e)) == Some(e),
        forall|id: u128| id != eid(e) ==> find_entry(put_entry(s, e), id) == find_entry(s, id),
{
    if exists|k: int| 0 <= k < s.len() && eid(#[trigger] s[k]) == eid(e) {
        let k = choose|k: int| 0 <= k < s.len() && eid(#[trigger] s[k]) == eid(e);
        assert forall|i: int| 0 <= i < k implies eid(#[trigger] s[i]) != eid(e) by {
            assert(entry_ids(s)[i] == eid(s[i]) && entry_ids(s)[k] == eid(s[k]));
        }
        lemma_put_at(s, e, k);
        let r = s.update(k, e);
        assert(entry_ids(r) =~= entry_ids(s));
        lemma_find_unique(r, eid(e));
        assert(r[k] == e);
        assert forall|id: u128| id != eid(e) implies find_entry(r, id) == find_entry(s, id) by {
            lemma_find_unique(s, id);
            lemma_find_unique(r, id);
            if exists|j: int| 0 <= j < s.len() && eid(#[trigger] s[j]) == id {
                let j = choose|j: int| 0 <= j < s.len() && eid(#[trigger] s[j]) == id;
                assert(r[j] == s[j]);
            } else {
                assert forall|j: int| 0 <= j < r.len() implies eid(#[trigger] r[j]) != id by {
                    if j != k {
                        assert(r[j] == s[j]);
                    }
                }
            }
        }
    } else {
        lemma_put_absent(s, e, eid(e));
        let r = s.push(e);
        assert(entry_ids(r) =~= entry_ids(s).push(eid(e)));
        assert(entry_ids(r).no_duplicates()) by {
            assert forall|i: int, j: int| 0 <= i < entry_ids(r).len() && 0 <= j < entry_ids(r).len() && i != j
                implies entry_ids(r)[i] != entry_ids(r)[j] by {
                if i < s.len() && j < s.len() {
                    assert(entry_ids(r)[i] == entry_ids(s)[i] && entry_ids(r)[j] == entry_ids(s)[j]);
                } else if i < s.len() {
                    assert(entry_ids(r)[i] == eid(s[i]));
                } else {
                    assert(entry_ids(r)[j] == eid(s[j]));
                }
            }
        }
        lemma_find_unique(r, eid(e));
        assert(r[s.len() as int] == e);
        assert forall|id: u128| id != eid(e) implies find_entry(r, id) == find_entry(s, id) by {
            lemma_find_unique(s, id);
            lemma_find_unique(r, id);
            if exists|j: int| 0 <= j < s.len() && eid(#[trigger] s[j]) == id {
                let j = choose|j: int| 0 <= j < s.len() && eid(#[trigger] s[j]) == id;
                assert(r[j] == s[j]);
            } else {
                assert forall|j: int| 0 <= j < r.len() implies eid(#[trigger] r[j]) != id by {
                    if j < s.len() {
                        assert(r[j] == s[j]);
                    }
                }
            }
        }
    }
}

proof fn lemma_drop_keeps_wf<R>(s: Seq<Arc<RuleEntry<R>>>, id: u128)
    requires
        entry_ids(s).no_duplicates(),
    ensures
        entry_ids(drop_entry(s, id)).no_duplicates(),
        find_entry(drop_entry(s, id), id) is None,
        forall|other: u128| other != id ==> find_entry(drop_entry(s, id), other) == find_entry(s, other),
{
    if exists|k: int| 0 <= k < s.len() && eid(#[trigger] s[k]) == id {
        let k = choose|k: int| 0 <= k < s.len() && eid(#[trigger] s[k]) == id;
        assert forall|i: int| 0 <= i < k implies eid(#[trigger] s[i]) != id by {
            assert(entry_ids(s)[i] == eid(s[i]) && entry_ids(s)[k] == eid(s[k]));
        }
        lemma_put_at(s, s[k], k);
        let r = s.remove(k);
        assert(entry_ids(r) =~= entry_ids(s).remove(k));
        assert(entry_ids(r).no_duplicates()) by {
            assert forall|i: int, j: int| 0 <= i < entry_ids(r).len() && 0 <= j < entry_ids(r).len() && i != j
                implies entry_ids(r)[i] != entry_ids(r)[j] by {
                let si = if i < k { i } else { i + 1 };
                let sj = if j < k { j } else { j + 1 };
                assert(entry_ids(r)[i] == entry_ids(s)[si] && entry_ids(r)[j] == entry_ids(s)[sj]);
            }
        }
        assert forall|j: int| 0 <= j < r.len() implies eid(#[trigger] r[j]) != id by {
            let sj = if j < k { j } else { j + 1 };
            assert(r[j] == s[sj]);
            assert(entry_ids(s)[sj] == eid(s[sj]) && entry_ids(s)[k] == eid(s[k]));
        }
        lemma_find_unique(r, id);
        assert forall|other: u128| other != id implies find_entry(r, other) == find_entry(s, other) by {
            lemma_find_unique(s, other);
            lemma_find_unique(r, other);
            if exists|j: int| 0 <= j < s.len() && eid(#[trigger] s[j]) == other {
                let j = choose|j: int| 0 <= j < s.len() && eid(#[trigger] s[j]) == other;
                assert(j != k);
                let rj = if j < k { j } else { j - 1 };
                assert(r[rj] == s[j]);
            } else {
                assert forall|j: int| 0 <= j < r.len() implies eid(#[trigger] r[j]) != other by {
                    let sj = if j < k { j } else { j + 1 };
                    assert(r[j] == s[sj]);
                }
            }
        }
    } else {
        lemma_put_absent(s, s[0], id);
    }
}

proof fn lemma_add_all_wf<R>(t: RuleTableView<R>, es: Seq<Arc<RuleEntry<R>>>)
    requires
        t.wf(),
    ensures
        t.add_all(es).wf(),
    decreases es.len(),
{
    if es.len() > 0 {
        lemma_add_all_wf(t, es.drop_last());
        lemma_put_keeps_wf(t.add_all(es.drop_last()).entries, es.last());
    }
}

proof fn lemma_remove_all_wf<R>(t: RuleTableView<R>, ids: Seq<u128>)
    requires
        t.wf(),
    ensures
        t.remove_all(ids).wf(),
    decreases ids.len(),
{
    if ids.len() > 0 {
        lemma_remove_all_wf(t, ids.drop_last());
        lemma_drop_keeps_wf(t.remove_all(ids.drop_last()).entries, ids.last());
    }
}

proof fn lemma_drop_subset<R>(s: Seq<Arc<RuleEntry<R>>>, id: u128)
    ensures
        forall|e: Arc<RuleEntry<R>>| drop_entry(s, id).contains(e) ==> s.contains(e),
    decreases s.len(),
{
    if s.len() > 0 && eid(s[0]) != id {
        lemma_drop_subset(s.drop_first(), id);
        let rest = drop_entry(s.drop_first(), id);
        let r = seq![s[0]] + rest;
        assert forall|e: Arc<RuleEntry<R>>| r.contains(e) implies s.contains(e) by {
            let k = choose|k: int| 0 <= k < r.len() && r[k] == e;
            if k == 0 {
                assert(s[0] == e);
            } else {
                assert(rest[k - 1] == e);
                assert(rest.contains(e));
                assert(s.drop_first().contains(e));
                let m = choose|m: int| 0 <= m < s.drop_first().len() && s.drop_first()[m] == e;
                assert(s[m + 1] == e);
            }
        }
    } else if s.len() > 0 {
        assert forall|e: Arc<RuleEntry<R>>| s.drop_first().contains(e) implies s.contains(e) by {
            let m = choose|m: int| 0 <= m < s.drop_first().len() && s.drop_first()[m] == e;
            assert(s[m + 1] == e);
        }
    }
}

proof fn lemma_remove_all_entries<R>(t: RuleTableView<R>, ids: Seq<u128>)
    requires
        t.wf(),
    ensures
        t.remove_all(ids).wf(),
        forall|e: Arc<RuleEntry<R>>| #[trigger] t.remove_all(ids).entries.contains(e) ==> t.entries.contains(e) && !ids.contains(eid(e)),
    decreases ids.len(),
{
    if ids.len() > 0 {
        let p = ids.drop_last();
        lemma_remove_all_entries(t, p);
        let mid = t.remove_all(p);
        let id = ids.last();
        lemma_drop_keeps_wf(mid.entries, id);
        lemma_drop_subset(mid.entries, id);
        let fin = mid.remove(id);
        if find_entry(mid.entries, id) is None {
            lemma_find_none(mid.entries, id);
            assert(fin.entries == mid.entries);
        } else {
            lemma_find_none(drop_entry(mid.entries, id), id);
            assert(fin.entries == drop_entry(mid.entries, id));
        }
        assert forall|e: Arc<RuleEntry<R>>| fin.entries.contains(e) implies t.entries.contains(e) && !ids.contains(eid(e)) by {
            let k = choose|k: int| 0 <= k < fin.entries.len() && fin.entries[k] == e;
            assert(eid(fin.entries[k]) != id);
            assert(mid.entries.contains(e));
            assert(!p.contains(eid(e)));
            if ids.contains(eid(e)) {
                let j = choose|j: int| 0 <= j < ids.len() && ids[j] == eid(e);
                if j < ids.len() - 1 {
                    assert(p[j] == eid(e));
                    assert(p.contains(eid(e)));
                }
            }
        }
    }
}

proof fn lemma_bundle_ids_cover<R>(s: Seq<Arc<RuleEntry<R>>>, b: BundleId)
    ensures
        forall|e: Arc<RuleEntry<R>>| s.contains(e) && in_bundle(e, b) ==> bundle_rule_ids(s, b).contains(eid(e)),
    decreases s.len(),
{
    if s.len() > 0 {
        let p = s.drop_last();
        lemma_bundle_ids_cover(p, b);
        assert forall|e: Arc<RuleEntry<R>>| s.contains(e) && in_bundle(e, b) implies bundle_rule_ids(s, b).contains(eid(e)) by {
            let k = choose|k: int| 0 <= k < s.len() && s[k] == e;
            if k == s.len() - 1 {
                assert(bundle_rule_ids(s, b) == bundle_rule_ids(p, b).push(eid(e)));
                assert(bundle_rule_ids(s, b)[bundle_rule_ids(s, b).len() - 1] == eid(e));
            } else {
                assert(p[k] == e);
                assert(p.contains(e));
                let q = bundle_rule_ids(p, b);
                let m = choose|m: int| 0 <= m < q.len() && q[m] == eid(e);
                if in_bundle(s.last(), b) {
                    assert(bundle_rule_ids(s, b) == q.push(eid(s.last())));
                    assert(bundle_rule_ids(s, b)[m] == eid(e));
                }
            }
        }
    }
}

/// After a bundle is unloaded no rule of the bundle is left, and every rule left was
/// there before.
pub proof fn lemma_unload_bundle<R>(t: RuleTableView<R>, b: BundleId)
    requires
        t.wf(),
    ensures
        t.remove_all(bundle_rule_ids(t.entries, b)).wf(),
        forall|e: Arc<RuleEntry<R>>| #[trigger] t.remove_all(bundle_rule_ids(t.entries, b)).entries.contains(e)
            ==> t.entries.contains(e) && !in_bundle(e, b),
{
    let ids = bundle_rule_ids(t.entries, b);
    lemma_remove_all_entries(t, ids);
    lemma_bundle_ids_cover(t.entries, b);
    assert forall|e: Arc<RuleEntry<R>>| #[trigger] t.remove_all(ids).entries.contains(e) implies t.entries.contains(e)
        && !in_bundle(e, b) by {
        if in_bundle(e, b) {
            assert(ids.contains(eid(e)));
        }
    }
}

/// A rule added under a new identifier is what a lookup of that identifier finds;
/// every other lookup is unchanged, and identifiers stay unique.
pub proof fn lemma_get_after_add<R>(t: RuleTableView<R>, e: Arc<RuleEntry<R>>)
    requires
        t.wf(),
    ensures
        t.add(e).wf(),
        find_entry(t.add(e).entries, eid(e)) == Some(e),
        forall|id: u128| id != eid(e) ==> find_entry(t.add(e).entries, id) == find_entry(t.entries, id),
{
    lemma_put_keeps_wf(t.entries, e);
}

/// After a rule is removed, a lookup of its identifier finds nothing; every other
/// lookup is unchanged, and identifiers stay unique.
pub proof fn lemma_get_after_remove<R>(t: RuleTableView<R>, id: u128)
    requires
        t.wf(),
    ensures
        t.remove(id).wf(),
        find_entry(t.remove(id).entries, id) is None,
        forall|other: u128| other != id ==> find_entry(t.remove(id).entries, other) == find_entry(t.entries, other),
{
    lemma_drop_keeps_wf(t.entries, id);
    if find_entry(t.entries, id) is None {
        lemma_find_none(t.entries, id);
    }
}

proof fn lemma_find_none<R>(s: Seq<Arc<RuleEntry<R>>>, id: u128)
    requires
        find_entry(s, id) is None,
    ensures
        forall|j: int| 0 <= j < s.len() ==> eid(#[trigger] s[j]) != id,
    decreases s.len(),
{
    if s.len() > 0 {
        lemma_find_none(s.drop_first(), id);
        assert forall|j: int| 0 <= j < s.len() implies eid(#[trigger] s[j]) != id by {
            if j > 0 {
                assert(s[j] == s.drop_first()[j - 1]);
            }
        }
    }
}

/// A decision just cached is what a lookup at the same moment finds.
pub proof fn lemma_cached_after_cache<R>(
    t: RuleTableView<R>,
    agent: Seq<char>,
    flow: Seq<char>,
    hash: u64,
    rule_id: RuleId,
    decision: Seq<char>,
    now: u128,
)
    ensures
        t.cache_at(agent, flow, hash, rule_id, decision, now).cached_at(agent, flow, hash, now) == Some((rule_id, decision)),
{
    lemma_find_after_upsert(
        make_room(t.cache, t.max_cache_size, t.cache_ttl_seconds, now),
        (agent, flow, hash, rule_id, decision, now),
    );
}

proof fn lemma_find_after_upsert(c: Seq<CachedDecision>, d: CachedDecision)
    ensures
        find_decision(upsert_decision(c, d), d.0, d.1, d.2) == Some(d),
    decreases c.len(),
{
    if c.len() == 0 {
    } else if c[0].0 == d.0 && c[0].1 == d.1 && c[0].2 == d.2 {
        assert((seq![d] + c.drop_first())[0] == d);
    } else {
        lemma_find_after_upsert(c.drop_first(), d);
        let r = seq![c[0]] + upsert_decision(c.drop_first(), d);
        assert(r[0] == c[0]);
        assert(r.drop_first() =~= upsert_decision(c.drop_first(), d));
    }
}


// ---------------------------------------------------------------------------
// The order of identifiers and of their text
// ---------------------------------------------------------------------------

/// `a` comes before `b` in the order of their characters' code points.
pub open spec fn text_before(a: Seq<char>, b: Seq<char>) -> bool {
    exists|k: int|
        0 <= k < a.len() && k < b.len() && a.subrange(0, k) == b.subrange(0, k) && (a[k] as u32) < (
        #[trigger] b[k] as u32)
}

/// The number formed by the first `i` of the 32 hexadecimal digits of `v`.
spec fn lead(v: u128, i: nat) -> int {
    v as int / pow(16, (32 - i) as nat)
}

proof fn lemma_lead_step(v: u128, i: nat)
    requires
        i < 32,
    ensures
        lead(v, i + 1) == 16 * lead(v, i) + nibble(v, i as int),
{
    let e = (31 - i) as nat;
    let p = pow(16, e);
    lemma_pow_positive(16, e);
    lemma_pow_adds(16, e, 1);
    lemma_pow1(16);
    assert((32 - i) as nat == e + 1);
    assert(pow(16, (32 - i) as nat) == p * 16);
    lemma_div_denominator(v as int, p, 16);
    let q = v as int / p;
    lemma_fundamental_div_mod(q, 16);
    lemma_mod_bound(q, 16);
    assert(lead(v, (i + 1) as nat) == q);
}

proof fn lemma_lead_ends(v: u128)
    ensures
        lead(v, 0) == 0,
        lead(v, 32) == v,
{
    reveal_with_fuel(pow, 33);
    assert(pow(16, 32) == 0x1_0000_0000_0000_0000_0000_0000_0000_0000int);
    lemma_basic_div(v as int, pow(16, 32));
    assert(pow(16, 0) == 1);
}

proof fn lemma_lead_equal(v1: u128, v2: u128, k: nat)
    requires
        k <= 32,
        forall|j: int| 0 <= j < k ==> nibble(v1, j) == nibble(v2, j),
    ensures
        lead(v1, k) == lead(v2, k),
    decreases k,
{
    if k == 0 {
        lemma_lead_ends(v1);
        lemma_lead_ends(v2);
    } else {
        lemma_lead_equal(v1, v2, (k - 1) as nat);
        lemma_lead_step(v1, (k - 1) as nat);
        lemma_lead_step(v2, (k - 1) as nat);
        assert(nibble(v1, k - 1) == nibble(v2, k - 1));
    }
}

proof fn lemma_first_difference(v1: u128, v2: u128, i: nat) -> (k: nat)
    requires
        i <= 32,
        forall|j: int| 0 <= j < i ==> nibble(v1, j) == nibble(v2, j),
        exists|j: int| i <= j < 32 && nibble(v1, j) != nibble(v2, j),
    ensures
        i <= k < 32,
        nibble(v1, k as int) != nibble(v2, k as int),
        forall|j: int| 0 <= j < k ==> nibble(v1, j) == nibble(v2, j),
    decreases 32 - i,
{
    if nibble(v1, i as int) != nibble(v2, i as int) {
        i
    } else {
        lemma_first_difference(v1, v2, i + 1)
    }
}

proof fn lemma_hex_code(d: nat)
    requires
        d < 16,
    ensures
        hex_char(d) as u32 == if d < 10 { 48 + d } else { 87 + d },
{
}

/// The position in the hyphenated text of the `k`-th hexadecimal digit.
spec fn digit_position(k: int) -> int {
    if k < 8 {
        k
    } else if k < 12 {
        k + 1
    } else if k < 16 {
        k + 2
    } else if k < 20 {
        k + 3
    } else {
        k + 4
    }
}

/// A smaller identifier value has the smaller hyphenated text, so ordering identifiers
/// by value orders them as their text does.
pub proof fn lemma_uuid_text_order(v1: u128, v2: u128)
    requires
        v1 < v2,
    ensures
        text_before(uuid_text(v1), uuid_text(v2)),
{
    if forall|j: int| 0 <= j < 32 ==> nibble(v1, j) == nibble(v2, j) {
        lemma_lead_equal(v1, v2, 32);
        lemma_lead_ends(v1);
        lemma_lead_ends(v2);
    }
    let k = lemma_first_difference(v1, v2, 0);
    lemma_lead_equal(v1, v2, k);
    lemma_lead_step(v1, k);
    lemma_lead_step(v2, k);
    let e = (32 - (k + 1)) as nat;
    lemma_pow_positive(16, e);
    lemma_div_is_ordered(v1 as int, v2 as int, pow(16, e));
    let d1 = nibble(v1, k as int);
    let d2 = nibble(v2, k as int);
    assert(d1 < d2);
    assert(d1 < 16 && d2 < 16) by {
        lemma_mod_bound(v1 as int / pow(16, (31 - k) as nat), 16);
        lemma_mod_bound(v2 as int / pow(16, (31 - k) as nat), 16);
    }
    lemma_hex_code(d1);
    lemma_hex_code(d2);
    let t1 = uuid_text(v1);
    let t2 = uuid_text(v2);
    let p = digit_position(k as int);
    assert(t1[p] == hex_char(d1));
    assert(t2[p] == hex_char(d2));
    assert(t1.subrange(0, p) =~= t2.subrange(0, p)) by {
        assert forall|q: int| 0 <= q < p implies t1[q] == t2[q] by {
            if !(q == 8 || q == 13 || q == 18 || q == 23) {
                let before: int = if q < 8 {
                    0
                } else if q < 13 {
                    1
                } else if q < 18 {
                    2
                } else if q < 23 {
                    3
                } else {
                    4
                };
                assert(q - before < k);
                assert(nibble(v1, q - before) == nibble(v2, q - before));
            }
        }
    }
}

/// Among entries of equal priority, the one that ranks first has the smaller
/// identifier text: the ranking of a query's answer orders ties as the identifiers'
/// hyphenated text does.
pub proof fn lemma_rank_ties_by_text<R>(a: Arc<RuleEntry<R>>, b: Arc<RuleEntry<R>>)
    requires
        precedes(a, b),
        eprio(a) == eprio(b),
    ensures
        text_before(uuid_text(eid(a)), uuid_text(eid(b))),
{
    lemma_uuid_text_order(eid(a), eid(b));
}

/// A rule lookup: each filter that is set must hold.
#[derive(Debug, Clone)]
pub struct RuleQuery {
    /// Source agent
    pub agent_id: Option<String>,
    /// Flow
    pub flow_id: Option<String>,
    /// Destination agent
    pub dest_agent: Option<String>,
    /// Payload data type
    pub dtype: Option<String>,
}

impl RuleQuery {
    /// A query with no filter.
    pub fn new() -> (r: Self)
        ensures
            r.agent_id is None,
            r.flow_id is None,
            r.dest_agent is None,
            r.dtype is None,
    {
        RuleQuery { agent_id: None, flow_id: None, dest_agent: None, dtype: None }
    }

    /// Filters by source agent.
    pub fn with_agent(self, agent_id: String) -> (r: Self)
        ensures
            r == (RuleQuery { agent_id: Some(agent_id), ..self }),
    {
        RuleQuery { agent_id: Some(agent_id), ..self }
    }

    /// Filters by flow.
    pub fn with_flow(self, flow_id: String) -> (r: Self)
        ensures
            r == (RuleQuery { flow_id: Some(flow_id), ..self }),
    {
        RuleQuery { flow_id: Some(flow_id), ..self }
    }

    /// Filters by destination agent.
    pub fn with_dest_agent(self, dest_agent: String) -> (r: Self)
        ensures
            r == (RuleQuery { dest_agent: Some(dest_agent), ..self }),
    {
        RuleQuery { dest_agent: Some(dest_agent), ..self }
    }

    /// Filters by payload data type.
    pub fn with_dtype(self, dtype: String) -> (r: Self)
        ensures
            r == (RuleQuery { dtype: Some(dtype), ..self }),
    {
        RuleQuery { dtype: Some(dtype), ..self }
    }
}

impl Default for RuleQuery {
    /// A query with no filter.
    fn default() -> (r: Self)
        ensures
            r.agent_id is None,
            r.flow_id is None,
            r.dest_agent is None,
            r.dtype is None,
    {
        RuleQuery::new()
    }
}

/// Sizes of the rule table and its indexes.
#[derive(Debug, Clone, Copy, PartialEq, Eq, Structural)]
pub struct TableStats {
    /// Rules held
    pub total_rules: usize,
    /// Global rules
    pub global_rules: usize,
    /// Agents indexed
    pub agent_indexes: usize,
    /// Flows indexed
    pub flow_indexes: usize,
    /// Destination agents indexed
    pub dest_agent_indexes: usize,
    /// Data types indexed
    pub dtype_indexes: usize,
    /// Cached decisions
    pub cache_size: usize,
}

} // verus!

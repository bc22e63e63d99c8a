//! Index structures for rule lookups by agent, by a family-specific secondary key, and
//! for global rules.
use vstd::prelude::*;
use std::sync::Arc;
use crate::bridge::rule_instance::RuleInstance;
use crate::bridge::rule_seq::{
    arc_share, dedup_by_id, dedup_rules, extend_shared, ids, remove_first, remove_first_id, rid,
    sort_by_priority, sort_by_priority_desc,
};
use crate::text::str_eq;

verus! {

/// Primary index keys for rule lookups.
#[derive(Debug, Clone)]
pub enum IndexKey {
    /// By agent id
    Agent(String),
    /// By tool id (tool gateway families)
    Tool(String),
    /// By data source id (retrieval families)
    Source(String),
    /// By destination domain (network egress)
    Domain(String),
    /// By sidecar image (sidecar spawn)
    Image(String),
    /// Global rules
    Global,
}

impl IndexKey {
    /// An agent key.
    pub fn agent(agent_id: String) -> (r: Self)
        ensures
            r == IndexKey::Agent(agent_id),
    {
        IndexKey::Agent(agent_id)
    }

    /// A tool key.
    pub fn tool(tool_id: String) -> (r: Self)
        ensures
            r == IndexKey::Tool(tool_id),
    {
        IndexKey::Tool(tool_id)
    }

    /// A source key.
    pub fn source(source_id: String) -> (r: Self)
        ensures
            r == IndexKey::Source(source_id),
    {
        IndexKey::Source(source_id)
    }

    /// A domain key.
    pub fn domain(domain: String) -> (r: Self)
        ensures
            r == IndexKey::Domain(domain),
    {
        IndexKey::Domain(domain)
    }

    /// The global key.
    pub fn global() -> (r: Self)
        ensures
            r == IndexKey::Global,
    {
        IndexKey::Global
    }
}

/// What the secondary index of a family tracks.
#[derive(Debug, Clone, Copy, PartialEq, Eq, Structural)]
pub enum SecondaryIndexType {
    /// No secondary index
    NoSecondary,
    /// Tool ids
    Tool,
    /// Source ids
    Source,
    /// Domains
    Domain,
    /// Image names
    Image,
}

/// The rules indexed under one key, in insertion order.
#[derive(Debug)]
pub struct IndexBucket {
    /// The key
    pub key: String,
    /// The rules under the key
    pub rules: Vec<Arc<RuleInstance>>,
}

/// A bucket by its key's characters and its rules.
pub type BucketView = (Seq<char>, Seq<Arc<RuleInstance>>);

/// The buckets by their keys' characters and their rules.
pub open spec fn buckets_view(bs: Seq<IndexBucket>) -> Seq<BucketView> {
    bs.map_values(|b: IndexBucket| (b.key@, b.rules@))
}

/// `k` is the first bucket with the key.
pub open spec fn is_first_key(bv: Seq<BucketView>, key: Seq<char>, k: int) -> bool {
    &&& 0 <= k < bv.len()
    &&& bv[k].0 == key
    &&& forall|j: int| 0 <= j < k ==> (#[trigger] bv[j]).0 != key
}

/// The position of the first bucket with the key, or -1.
pub open spec fn key_index(bv: Seq<BucketView>, key: Seq<char>) -> int {
    if exists|k: int| is_first_key(bv, key, k) {
        choose|k: int| is_first_key(bv, key, k)
    } else {
        -1
    }
}

/// The rules under a key (none when the key is absent).
pub open spec fn rules_for_key(bv: Seq<BucketView>, key: Seq<char>) -> Seq<Arc<RuleInstance>> {
    let k = key_index(bv, key);
    if k >= 0 {
        bv[k].1
    } else {
        Seq::empty()
    }
}

/// The buckets after adding a rule under a key; a new key gets a bucket at the end.
pub open spec fn bucket_insert(bv: Seq<BucketView>, key: Seq<char>, rule: Arc<RuleInstance>) -> Seq<
    BucketView,
> {
    let k = key_index(bv, key);
    if k >= 0 {
        bv.update(k, (key, bv[k].1.push(rule)))
    } else {
        bv.push((key, seq![rule]))
    }
}

/// The buckets after adding a rule under each key in turn.
pub open spec fn bucket_insert_all(
    bv: Seq<BucketView>,
    keys: Seq<Seq<char>>,
    rule: Arc<RuleInstance>,
) -> Seq<BucketView>
    decreases keys.len(),
{
    if keys.len() == 0 {
        bv
    } else {
        bucket_insert(bucket_insert_all(bv, keys.drop_last(), rule), keys.last(), rule)
    }
}

/// The buckets after removing the first rule with the identifier from each bucket.
pub open spec fn bucket_remove_all(bv: Seq<BucketView>, id: Seq<char>) -> Seq<BucketView> {
    Seq::new(bv.len(), |i: int| (bv[i].0, remove_first_id(bv[i].1, id)))
}

/// Some bucket holds a rule with the identifier.
pub open spec fn buckets_have_id(bv: Seq<BucketView>, id: Seq<char>) -> bool {
    exists|i: int| 0 <= i < bv.len() && #[trigger] ids(bv[i].1).contains(id)
}

/// The rules of all buckets, bucket by bucket.
pub open spec fn flatten(bv: Seq<BucketView>) -> Seq<Arc<RuleInstance>>
    decreases bv.len(),
{
    if bv.len() == 0 {
        Seq::empty()
    } else {
        flatten(bv.drop_last()) + bv.last().1
    }
}

/// The number of rules over all buckets.
pub open spec fn total_rules(bv: Seq<BucketView>) -> nat
    decreases bv.len(),
{
    if bv.len() == 0 {
        0
    } else {
        total_rules(bv.drop_last()) + bv.last().1.len()
    }
}

/// Every rule under an agent key lists that agent in its scope.
pub open spec fn agent_buckets_sound(bv: Seq<BucketView>) -> bool {
    forall|i: int, j: int|
        0 <= i < bv.len() && 0 <= j < bv[i].1.len() ==> (*(#[trigger] bv[i].1[j])).spec_scope().agents().contains(
            bv[i].0,
        )
}

/// Every global rule has a global scope.
pub open spec fn globals_sound(g: Seq<Arc<RuleInstance>>) -> bool {
    forall|i: int| 0 <= i < g.len() ==> (*(#[trigger] g[i])).spec_scope().is_global
}

proof fn lemma_key_index_found(bv: Seq<BucketView>, key: Seq<char>, k: int)
    requires
        is_first_key(bv, key, k),
    ensures
        key_index(bv, key) == k,
{
    let w = choose|w: int| is_first_key(bv, key, w);
    assert(is_first_key(bv, key, w));
    if w < k {
        assert(bv[w].0 != key);
    }
    if k < w {
        assert(bv[k].0 != key);
    }
}

proof fn lemma_key_index_absent(bv: Seq<BucketView>, key: Seq<char>)
    requires
        forall|j: int| 0 <= j < bv.len() ==> (#[trigger] bv[j]).0 != key,
    ensures
        key_index(bv, key) == -1,
{
}

/// The first bucket with the key.
fn find_bucket(bs: &Vec<IndexBucket>, key: &str) -> (r: Option<usize>)
    ensures
        match r {
            Some(k) => is_first_key(buckets_view(bs@), key@, k as int) && key_index(
                buckets_view(bs@),
                key@,
            ) == k,
            None => key_index(buckets_view(bs@), key@) == -1,
        },
{
    let n = bs.len();
    let ghost bv = buckets_view(bs@);
    let mut i: usize = 0;
    while i < n
        invariant
            n == bs@.len(),
            bv == buckets_view(bs@),
            i <= n,
            forall|j: int| 0 <= j < i ==> (#[trigger] bv[j]).0 != key@,
        decreases n - i,
    {
        if str_eq(bs[i].key.as_str(), key) {
            proof {
                lemma_key_index_found(bv, key@, i as int);
            }
            return Some(i);
        }
        i = i + 1;
    }
    proof {
        lemma_key_index_absent(bv, key@);
    }
    None
}

/// Adds a rule under a key.
fn insert_into(bs: &mut Vec<IndexBucket>, key: String, rule: Arc<RuleInstance>)
    ensures
        buckets_view(final(bs)@) == bucket_insert(buckets_view(old(bs)@), key@, rule),
{
    let ghost bv = buckets_view(bs@);
    match find_bucket(bs, key.as_str()) {
        Some(k) => {
            let mut b = bs.remove(k);
            b.rules.push(rule);
            bs.insert(k, b);
            assert(buckets_view(bs@) =~= bv.update(k as int, (key@, bv[k as int].1.push(rule))));
        },
        None => {
            let ghost kv = key@;
            let mut rules = Vec::new();
            rules.push(rule);
            bs.push(IndexBucket { key, rules });
            assert(buckets_view(bs@) =~= bv.push((kv, seq![rule])));
        },
    }
}

/// Appends the rules of every bucket, bucket by bucket.
fn flatten_into(dst: &mut Vec<Arc<RuleInstance>>, bs: &Vec<IndexBucket>)
    ensures
        final(dst)@ == old(dst)@ + flatten(buckets_view(bs@)),
{
    let n = bs.len();
    let ghost bv = buckets_view(bs@);
    let mut i: usize = 0;
    while i < n
        invariant
            n == bs@.len(),
            bv == buckets_view(bs@),
            i <= n,
            dst@ == old(dst)@ + flatten(bv.take(i as int)),
        decreases n - i,
    {
        extend_shared(dst, &bs[i].rules);
        proof {
            let t = bv.take(i + 1);
            assert(t.drop_last() =~= bv.take(i as int));
            assert(t.last() == bv[i as int]);
        }
        i = i + 1;
    }
    assert(bv.take(n as int) =~= bv);
}

/// Index structure of a rule family table.
#[derive(Debug)]
pub struct FamilyIndices {
    /// Agent id to rules, in insertion order of the agents
    pub by_agent: Vec<IndexBucket>,
    /// Secondary key (tool, source, domain, ...) to rules
    pub by_secondary: Vec<IndexBucket>,
    /// Global rules
    pub globals: Vec<Arc<RuleInstance>>,
    /// What the secondary index tracks
    pub secondary_type: SecondaryIndexType,
}

/// Statistics of index usage.
#[derive(Debug, Clone)]
pub struct IndexStats {
    /// Distinct agents indexed
    pub agent_index_size: usize,
    /// Distinct secondary keys indexed
    pub secondary_index_size: usize,
    /// Global rules
    pub global_count: usize,
    /// Rules in the agent index, counted once per agent
    pub total_agent_rules: usize,
    /// Rules in the secondary index, counted once per key
    pub total_secondary_rules: usize,
    /// What the secondary index tracks
    pub secondary_type: SecondaryIndexType,
}

/// The rules of the buckets counted, saturating at the largest `usize`.
fn count_rules(bs: &Vec<IndexBucket>) -> (r: usize)
    ensures
        r == if total_rules(buckets_view(bs@)) <= usize::MAX {
            total_rules(buckets_view(bs@))
        } else {
            usize::MAX as nat
        },
{
    let n = bs.len();
    let ghost bv = buckets_view(bs@);
    let mut total: usize = 0;
    let mut i: usize = 0;
    while i < n
        invariant
            n == bs@.len(),
            bv == buckets_view(bs@),
            i <= n,
            total == if total_rules(bv.take(i as int)) <= usize::MAX {
                total_rules(bv.take(i as int))
            } else {
                usize::MAX as nat
            },
        decreases n - i,
    {
        proof {
            let t = bv.take(i + 1);
            assert(t.drop_last() =~= bv.take(i as int));
            assert(t.last() == bv[i as int]);
        }
        total = total.saturating_add(bs[i].rules.len());
        i = i + 1;
    }
    assert(bv.take(n as int) =~= bv);
    total
}

impl FamilyIndices {
    /// The agent index by keys and rules.
    pub open spec fn agent_view(&self) -> Seq<BucketView> {
        buckets_view(self.by_agent@)
    }

    /// The secondary index by keys and rules.
    pub open spec fn secondary_view(&self) -> Seq<BucketView> {
        buckets_view(self.by_secondary@)
    }

    /// Agent buckets hold only rules scoped to their agent, and globals only global rules.
    pub open spec fn sound(&self) -> bool {
        agent_buckets_sound(self.agent_view()) && globals_sound(self.globals@)
    }

    /// An empty index structure.
    pub fn new(secondary_type: SecondaryIndexType) -> (r: Self)
        ensures
            r.agent_view().len() == 0,
            r.secondary_view().len() == 0,
            r.globals@.len() == 0,
            r.secondary_type == secondary_type,
            r.sound(),
    {
        let r = FamilyIndices {
            by_agent: Vec::new(),
            by_secondary: Vec::new(),
            globals: Vec::new(),
            secondary_type,
        };
        assert(r.agent_view() =~= Seq::empty());
        r
    }

    /// Adds a rule to the global list when its scope is global, and under each agent
    /// of its scope in turn.
    pub fn add_rule(&mut self, rule: Arc<RuleInstance>)
        ensures
            final(self).globals@ == if (*rule).spec_scope().is_global {
                old(self).globals@.push(rule)
            } else {
                old(self).globals@
            },
            final(self).agent_view() == bucket_insert_all(
                old(self).agent_view(),
                (*rule).spec_scope().agents(),
                rule,
            ),
            final(self).secondary_view() == old(self).secondary_view(),
            final(self).secondary_type == old(self).secondary_type,
            old(self).sound() ==> final(self).sound(),
    {
        let inner: &RuleInstance = &*rule;
        let scope = inner.scope();
        if scope.is_global {
            self.globals.push(arc_share(&rule));
        }
        let ghost agents = scope.agents();
        let ghost g = self.globals@;
        let n = scope.agent_ids.len();
        let mut i: usize = 0;
        while i < n
            invariant
                n == scope.agent_ids@.len(),
                agents == scope.agents(),
                *scope == (*rule).spec_scope(),
                i <= n,
                self.globals@ == g,
                self.secondary_view() == old(self).secondary_view(),
                self.secondary_type == old(self).secondary_type,
                self.agent_view() == bucket_insert_all(old(self).agent_view(), agents.take(i as int), rule),
                agent_buckets_sound(old(self).agent_view()) ==> agent_buckets_sound(self.agent_view()),
            decreases n - i,
        {
            let key = scope.agent_ids[i].clone();
            let ghost before = self.agent_view();
            insert_into(&mut self.by_agent, key, arc_share(&rule));
            proof {
                let t = agents.take(i + 1);
                assert(t.drop_last() =~= agents.take(i as int));
                assert(t.last() == agents[i as int]);
                assert(agents[i as int] == scope.agent_ids@[i as int]@);
                if agent_buckets_sound(before) {
                    let after = self.agent_view();
                    let k = key_index(before, agents[i as int]);
                    assert forall|a: int, b: int|
                        0 <= a < after.len() && 0 <= b < after[a].1.len() implies (*(#[trigger] after[a].1[b])).spec_scope().agents().contains(after[a].0) by {
                        if (k >= 0 && a == k && b == before[a].1.len()) || (k < 0 && a == before.len()) {
                            assert(after[a].1[b] == rule);
                            assert(after[a].0 == agents[i as int]);
                        } else {
                            assert(after[a].1[b] == before[a].1[b]);
                            assert(after[a].0 == before[a].0);
                        }
                    }
                }
            }
            i = i + 1;
        }
        proof {
            assert(agents.take(n as int) =~= agents);
            if globals_sound(old(self).globals@) {
                assert forall|a: int| 0 <= a < self.globals@.len() implies (*(#[trigger] self.globals@[a])).spec_scope().is_global by {
                    if a < old(self).globals@.len() {
                        assert(self.globals@[a] == old(self).globals@[a]);
                    }
                }
            }
        }
    }

    /// Adds a rule under a secondary key.
    pub fn add_to_secondary(&mut self, key: String, rule: Arc<RuleInstance>)
        ensures
            final(self).secondary_view() == bucket_insert(old(self).secondary_view(), key@, rule),
            final(self).agent_view() == old(self).agent_view(),
            final(self).globals@ == old(self).globals@,
            final(self).secondary_type == old(self).secondary_type,
            old(self).sound() ==> final(self).sound(),
    {
        insert_into(&mut self.by_secondary, key, rule);
    }

    /// Rules for an agent: those indexed under the agent, then the global rules, ordered
    /// by priority (highest first, stable).
    pub fn query_by_agent(&self, agent_id: &str) -> (r: Vec<Arc<RuleInstance>>)
        ensures
            r@ == sort_by_priority(rules_for_key(self.agent_view(), agent_id@) + self.globals@),
    {
        let mut results: Vec<Arc<RuleInstance>> = Vec::new();
        match find_bucket(&self.by_agent, agent_id) {
            Some(k) => {
                extend_shared(&mut results, &self.by_agent[k].rules);
            },
            None => {},
        }
        extend_shared(&mut results, &self.globals);
        proof {
            assert(results@ =~= rules_for_key(self.agent_view(), agent_id@) + self.globals@);
        }
        sort_by_priority_desc(&results)
    }

    /// Rules for a secondary key: those indexed under it, then the global rules, ordered
    /// by priority.
    pub fn query_by_secondary(&self, key: &str) -> (r: Vec<Arc<RuleInstance>>)
        ensures
            r@ == sort_by_priority(rules_for_key(self.secondary_view(), key@) + self.globals@),
    {
        let mut results: Vec<Arc<RuleInstance>> = Vec::new();
        match find_bucket(&self.by_secondary, key) {
            Some(k) => {
                extend_shared(&mut results, &self.by_secondary[k].rules);
            },
            None => {},
        }
        extend_shared(&mut results, &self.globals);
        proof {
            assert(results@ =~= rules_for_key(self.secondary_view(), key@) + self.globals@);
        }
        sort_by_priority_desc(&results)
    }

    /// Rules under the agent or the secondary key, plus global rules, each identifier
    /// once (first occurrence kept), ordered by priority.
    pub fn query_by_agent_and_secondary(&self, agent_id: &str, secondary_key: &str) -> (r: Vec<
        Arc<RuleInstance>,
    >)
        ensures
            r@ == sort_by_priority(
                dedup_by_id(
                    rules_for_key(self.agent_view(), agent_id@) + rules_for_key(
                        self.secondary_view(),
                        secondary_key@,
                    ) + self.globals@,
                ),
            ),
    {
        let mut all: Vec<Arc<RuleInstance>> = Vec::new();
        match find_bucket(&self.by_agent, agent_id) {
            Some(k) => {
                extend_shared(&mut all, &self.by_agent[k].rules);
            },
            None => {},
        }
        let ghost a = all@;
        match find_bucket(&self.by_secondary, secondary_key) {
            Some(k) => {
                extend_shared(&mut all, &self.by_secondary[k].rules);
            },
            None => {},
        }
        proof {
            assert(a =~= rules_for_key(self.agent_view(), agent_id@));
            assert(all@ =~= a + rules_for_key(self.secondary_view(), secondary_key@));
        }
        extend_shared(&mut all, &self.globals);
        let unique = dedup_rules(&all);
        sort_by_priority_desc(&unique)
    }

    /// The global rules ordered by priority.
    pub fn query_globals(&self) -> (r: Vec<Arc<RuleInstance>>)
        ensures
            r@ == sort_by_priority(self.globals@),
    {
        sort_by_priority_desc(&self.globals)
    }

    /// Every indexed rule, each identifier once (agent index first, then secondary
    /// index, then globals), ordered by priority.
    pub fn query_all(&self) -> (r: Vec<Arc<RuleInstance>>)
        ensures
            r@ == sort_by_priority(
                dedup_by_id(flatten(self.agent_view()) + flatten(self.secondary_view()) + self.globals@),
            ),
    {
        let mut all: Vec<Arc<RuleInstance>> = Vec::new();
        flatten_into(&mut all, &self.by_agent);
        flatten_into(&mut all, &self.by_secondary);
        extend_shared(&mut all, &self.globals);
        proof {
            assert(all@ =~= flatten(self.agent_view()) + flatten(self.secondary_view()) + self.globals@);
        }
        let unique = dedup_rules(&all);
        sort_by_priority_desc(&unique)
    }

    /// Removes the first rule with the identifier from every bucket and from the
    /// globals; reports whether any was removed.
    pub fn remove_rule(&mut self, rule_id: &str) -> (r: bool)
        ensures
            final(self).agent_view() == bucket_remove_all(old(self).agent_view(), rule_id@),
            final(self).secondary_view() == bucket_remove_all(old(self).secondary_view(), rule_id@),
            final(self).globals@ == remove_first_id(old(self).globals@, rule_id@),
            final(self).secondary_type == old(self).secondary_type,
            r == (buckets_have_id(old(self).agent_view(), rule_id@) || buckets_have_id(
                old(self).secondary_view(),
                rule_id@,
            ) || ids(old(self).globals@).contains(rule_id@)),
            old(self).sound() ==> final(self).sound(),
    {
        let f1 = remove_from_buckets(&mut self.by_agent, rule_id);
        let f2 = remove_from_buckets(&mut self.by_secondary, rule_id);
        let f3 = remove_first(&mut self.globals, rule_id);
        proof {
            lemma_remove_keeps_agents_sound(old(self).agent_view(), rule_id@);
            lemma_remove_keeps_globals_sound(old(self).globals@, rule_id@);
        }
        f1 || f2 || f3
    }

    /// Empties all indices.
    pub fn clear(&mut self)
        ensures
            final(self).agent_view().len() == 0,
            final(self).secondary_view().len() == 0,
            final(self).globals@.len() == 0,
            final(self).secondary_type == old(self).secondary_type,
            final(self).sound(),
    {
        self.by_agent.clear();
        self.by_secondary.clear();
        self.globals.clear();
        assert(self.agent_view() =~= Seq::empty());
    }

    /// Statistics of the indices; rule totals saturate at the largest `usize`.
    pub fn stats(&self) -> (r: IndexStats)
        ensures
            r.agent_index_size == self.agent_view().len(),
            r.secondary_index_size == self.secondary_view().len(),
            r.global_count == self.globals@.len(),
            r.total_agent_rules == if total_rules(self.agent_view()) <= usize::MAX {
                total_rules(self.agent_view())
            } else {
                usize::MAX as nat
            },
            r.total_secondary_rules == if total_rules(self.secondary_view()) <= usize::MAX {
                total_rules(self.secondary_view())
            } else {
                usize::MAX as nat
            },
            r.secondary_type == self.secondary_type,
    {
        IndexStats {
            agent_index_size: self.by_agent.len(),
            secondary_index_size: self.by_secondary.len(),
            global_count: self.globals.len(),
            total_agent_rules: count_rules(&self.by_agent),
            total_secondary_rules: count_rules(&self.by_secondary),
            secondary_type: self.secondary_type,
        }
    }
}

/// Removes the first rule with the identifier from each bucket.
fn remove_from_buckets(bs: &mut Vec<IndexBucket>, id: &str) -> (r: bool)
    ensures
        buckets_view(final(bs)@) == bucket_remove_all(buckets_view(old(bs)@), id@),
        r == buckets_have_id(buckets_view(old(bs)@), id@),
{
    let ghost bv = buckets_view(bs@);
    let n = bs.len();
    let mut found = false;
    let mut i: usize = 0;
    while i < n
        invariant
            n == bs@.len(),
            bv == buckets_view(old(bs)@),
            i <= n,
            forall|j: int|
                0 <= j < i ==> #[trigger] buckets_view(bs@)[j] == (bv[j].0, remove_first_id(bv[j].1, id@)),
            forall|j: int| i <= j < n ==> #[trigger] buckets_view(bs@)[j] == bv[j],
            found == (exists|j: int| 0 <= j < i && #[trigger] ids(bv[j].1).contains(id@)),
        decreases n - i,
    {
        let ghost before = buckets_view(bs@);
        let ghost old_bs = bs@;
        assert(before[i as int] == bv[i as int]);
        let mut b = bs.remove(i);
        assert(b == old_bs[i as int]);
        assert(b.key@ == bv[i as int].0 && b.rules@ == bv[i as int].1);
        let f = remove_first(&mut b.rules, id);
        let ghost nb = b;
        bs.insert(i, b);
        proof {
            assert(bs@ =~= old_bs.update(i as int, nb));
            assert(buckets_view(bs@) =~= before.update(i as int, (bv[i as int].0, remove_first_id(bv[i as int].1, id@))));
            if f {
                assert(ids(bv[i as int].1).contains(id@));
            }
        }
        found = found || f;
        i = i + 1;
    }
    assert(buckets_view(bs@) =~= bucket_remove_all(bv, id@));
    found
}

/// Removing rules keeps every remaining rule under a key it was under.
proof fn lemma_remove_first_subset(s: Seq<Arc<RuleInstance>>, id: Seq<char>, j: int)
    requires
        0 <= j < remove_first_id(s, id).len(),
    ensures
        exists|k: int| 0 <= k < s.len() && s[k] == #[trigger] remove_first_id(s, id)[j],
    decreases s.len(),
{
    if s.len() > 0 {
        if rid(s[0]) == id {
            assert(s[j + 1] == remove_first_id(s, id)[j]);
        } else if j == 0 {
            assert(s[0] == remove_first_id(s, id)[0]);
        } else {
            let t = s.drop_first();
            lemma_remove_first_subset(t, id, j - 1);
            let k = choose|k: int| 0 <= k < t.len() && t[k] == #[trigger] remove_first_id(t, id)[j - 1];
            assert(s[k + 1] == remove_first_id(s, id)[j]);
        }
    }
}

proof fn lemma_remove_keeps_agents_sound(bv: Seq<BucketView>, id: Seq<char>)
    ensures
        agent_buckets_sound(bv) ==> agent_buckets_sound(bucket_remove_all(bv, id)),
{
    if agent_buckets_sound(bv) {
        let after = bucket_remove_all(bv, id);
        assert forall|a: int, b: int|
            0 <= a < after.len() && 0 <= b < after[a].1.len() implies (*(#[trigger] after[a].1[b])).spec_scope().agents().contains(after[a].0) by {
            lemma_remove_first_subset(bv[a].1, id, b);
            let k = choose|k: int| 0 <= k < bv[a].1.len() && bv[a].1[k] == #[trigger] remove_first_id(bv[a].1, id)[b];
            assert(bv[a].1[k] == after[a].1[b]);
        }
    }
}

proof fn lemma_remove_keeps_globals_sound(g: Seq<Arc<RuleInstance>>, id: Seq<char>)
    ensures
        globals_sound(g) ==> globals_sound(remove_first_id(g, id)),
{
    if globals_sound(g) {
        let after = remove_first_id(g, id);
        assert forall|b: int| 0 <= b < after.len() implies (*(#[trigger] after[b])).spec_scope().is_global by {
            lemma_remove_first_subset(g, id, b);
            let k = choose|k: int| 0 <= k < g.len() && g[k] == #[trigger] remove_first_id(g, id)[b];
            assert(g[k] == after[b]);
        }
    }
}

} // verus!

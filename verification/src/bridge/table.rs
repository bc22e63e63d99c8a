//! The table holding the rules of one rule family, with its indices and counters.
use vstd::prelude::*;
use vstd::string::*;
use std::sync::Arc;
use crate::bridge::indices::{
    bucket_insert_all, bucket_remove_all, buckets_have_id, flatten,
    rules_for_key, total_rules, BucketView, FamilyIndices, IndexStats, SecondaryIndexType,
};
use crate::bridge::rule_instance::RuleInstance;
use crate::bridge::rule_seq::{
    arc_share, dedup_by_id, find_first, find_first_rule, ids, lemma_find_after_push,
    lemma_find_after_remove, lemma_sort_by_priority, position_of_id, remove_first_id, rid,
    sort_by_priority,
};
use crate::bridge::types::{family_key, now_ms, LayerId, RuleFamilyId, TableMetadata};
use crate::text::owned;

verus! {

/// The secondary index kind of a family.
pub open spec fn secondary_for(f: RuleFamilyId) -> SecondaryIndexType {
    match f {
        RuleFamilyId::NetworkEgress => SecondaryIndexType::Domain,
        RuleFamilyId::SidecarSpawn => SecondaryIndexType::Image,
        RuleFamilyId::ToolWhitelist | RuleFamilyId::ToolParamConstraint => SecondaryIndexType::Tool,
        RuleFamilyId::RAGSource | RuleFamilyId::RAGDocSensitivity => SecondaryIndexType::Source,
        _ => SecondaryIndexType::NoSecondary,
    }
}

/// The number of rules with a global scope.
pub open spec fn count_global(s: Seq<Arc<RuleInstance>>) -> nat
    decreases s.len(),
{
    if s.len() == 0 {
        0
    } else {
        count_global(s.drop_last()) + if (*s.last()).spec_scope().is_global {
            1nat
        } else {
            0nat
        }
    }
}

/// The first position where the predicate holds, or -1.
pub open spec fn first_where(s: Seq<Arc<RuleInstance>>, p: spec_fn(Arc<RuleInstance>) -> bool) -> int {
    if exists|k: int| 0 <= k < s.len() && p(s[k]) && forall|j: int| 0 <= j < k ==> !p(#[trigger] s[j]) {
        choose|k: int| 0 <= k < s.len() && p(s[k]) && forall|j: int| 0 <= j < k ==> !p(#[trigger] s[j])
    } else {
        -1
    }
}

/// The error text for a rule of the wrong family.
pub open spec fn mismatch_message(expected: RuleFamilyId, got: RuleFamilyId) -> Seq<char> {
    "Rule family mismatch: expected "@ + family_key(expected) + ", got "@ + family_key(got)
}

/// The error text for a rule id that is already present.
pub open spec fn duplicate_message(id: Seq<char>) -> Seq<char> {
    "Rule "@ + id + " already exists in table"@
}

/// The agent index after adding each rule in turn.
pub open spec fn agent_index_after(bv: Seq<BucketView>, rules: Seq<Arc<RuleInstance>>) -> Seq<
    BucketView,
>
    decreases rules.len(),
{
    if rules.len() == 0 {
        bv
    } else {
        bucket_insert_all(
            agent_index_after(bv, rules.drop_last()),
            (*rules.last()).spec_scope().agents(),
            rules.last(),
        )
    }
}

/// The global list after adding each rule in turn.
pub open spec fn globals_after(g: Seq<Arc<RuleInstance>>, rules: Seq<Arc<RuleInstance>>) -> Seq<
    Arc<RuleInstance>,
>
    decreases rules.len(),
{
    if rules.len() == 0 {
        g
    } else {
        let h = globals_after(g, rules.drop_last());
        if (*rules.last()).spec_scope().is_global {
            h.push(rules.last())
        } else {
            h
        }
    }
}

proof fn lemma_first_where_found(
    s: Seq<Arc<RuleInstance>>,
    p: spec_fn(Arc<RuleInstance>) -> bool,
    k: int,
)
    requires
        0 <= k < s.len(),
        p(s[k]),
        forall|j: int| 0 <= j < k ==> !p(#[trigger] s[j]),
    ensures
        first_where(s, p) == k,
{
    let w = choose|w: int|
        0 <= w < s.len() && p(s[w]) && forall|j: int| 0 <= j < w ==> !p(#[trigger] s[j]);
    assert(0 <= w < s.len() && p(s[w]) && forall|j: int| 0 <= j < w ==> !p(#[trigger] s[j]));
    if w < k {
        assert(!p(s[w]));
    }
    if k < w {
        assert(!p(s[k]));
    }
}

proof fn lemma_first_where_absent(s: Seq<Arc<RuleInstance>>, p: spec_fn(Arc<RuleInstance>) -> bool)
    requires
        forall|j: int| 0 <= j < s.len() ==> !p(#[trigger] s[j]),
    ensures
        first_where(s, p) == -1,
{
}

proof fn lemma_count_global_bound(s: Seq<Arc<RuleInstance>>)
    ensures
        count_global(s) <= s.len(),
    decreases s.len(),
{
    if s.len() > 0 {
        lemma_count_global_bound(s.drop_last());
    }
}

proof fn lemma_count_global_append(a: Seq<Arc<RuleInstance>>, b: Seq<Arc<RuleInstance>>)
    ensures
        count_global(a + b) == count_global(a) + count_global(b),
    decreases b.len(),
{
    if b.len() > 0 {
        lemma_count_global_append(a, b.drop_last());
        assert((a + b).drop_last() =~= a + b.drop_last());
    } else {
        assert(a + b =~= a);
    }
}

proof fn lemma_count_global_remove(s: Seq<Arc<RuleInstance>>, k: int)
    requires
        0 <= k < s.len(),
    ensures
        count_global(s) == count_global(s.remove(k)) + if (*s[k]).spec_scope().is_global {
            1nat
        } else {
            0nat
        },
{
    lemma_count_global_append(s.take(k), s.skip(k));
    lemma_count_global_append(s.take(k), s.skip(k + 1));
    assert(s.take(k) + s.skip(k) =~= s);
    assert(s.take(k) + s.skip(k + 1) =~= s.remove(k));
    lemma_count_global_append(seq![s[k]], s.skip(k + 1));
    assert(seq![s[k]] + s.skip(k + 1) =~= s.skip(k));
    assert(seq![s[k]].drop_last() =~= Seq::<Arc<RuleInstance>>::empty());
    assert(seq![s[k]].last() == s[k]);
    assert(count_global(Seq::<Arc<RuleInstance>>::empty()) == 0);
}

/// Builds "<a><b><c>".
fn concat3(a: &str, b: &str, c: &str) -> (r: String)
    ensures
        r@ == a@ + b@ + c@,
{
    let mut s = owned(a);
    s.append(b);
    s.append(c);
    s
}

/// Builds "<a><b><c><d>".
fn concat4(a: &str, b: &str, c: &str, d: &str) -> (r: String)
    ensures
        r@ == a@ + b@ + c@ + d@,
{
    let mut s = owned(a);
    s.append(b);
    s.append(c);
    s.append(d);
    s
}

/// The rules of one family, indexed for lookups, with a version that grows on every
/// change.
#[derive(Debug)]
pub struct RuleFamilyTable {
    family_id: RuleFamilyId,
    layer_id: LayerId,
    schema_version: u32,
    version: u64,
    created_at: u64,
    metadata: TableMetadata,
    indices: FamilyIndices,
    entries: Vec<Arc<RuleInstance>>,
}

impl RuleFamilyTable {
    /// The rules of the table, in insertion order.
    pub closed spec fn entries(&self) -> Seq<Arc<RuleInstance>> {
        self.entries@
    }

    /// The agent index.
    pub closed spec fn agent_index(&self) -> Seq<BucketView> {
        self.indices.agent_view()
    }

    /// The secondary index.
    pub closed spec fn secondary_index(&self) -> Seq<BucketView> {
        self.indices.secondary_view()
    }

    /// The global rules in the index.
    pub closed spec fn global_rules(&self) -> Seq<Arc<RuleInstance>> {
        self.indices.globals@
    }

    /// The secondary index kind.
    pub closed spec fn secondary_kind(&self) -> SecondaryIndexType {
        self.indices.secondary_type
    }

    /// The table version.
    pub closed spec fn spec_version(&self) -> u64 {
        self.version
    }

    /// The family of the table.
    pub closed spec fn spec_family(&self) -> RuleFamilyId {
        self.family_id
    }

    /// The layer given at creation.
    pub closed spec fn spec_layer(&self) -> LayerId {
        self.layer_id
    }

    /// The schema version.
    pub closed spec fn spec_schema_version(&self) -> u32 {
        self.schema_version
    }

    /// The creation time.
    pub closed spec fn spec_created_at(&self) -> u64 {
        self.created_at
    }

    /// The counters.
    pub closed spec fn meta(&self) -> TableMetadata {
        self.metadata
    }

    /// The counters agree with the rules, every rule is of the table's family, and the
    /// indices are sound.
    pub closed spec fn wf(&self) -> bool {
        &&& self.metadata.rule_count == self.entries@.len()
        &&& self.metadata.global_count == count_global(self.entries@)
        &&& self.metadata.scoped_count == self.entries@.len() - count_global(self.entries@)
        &&& self.metadata.schema_version == self.schema_version
        &&& forall|i: int| 0 <= i < self.entries@.len() ==> (*(#[trigger] self.entries@[i])).spec_family() == self.family_id
        &&& self.indices.secondary_type == secondary_for(self.family_id)
        &&& self.indices.sound()
    }

    /// Fields that no rule operation changes.
    pub open spec fn same_identity(&self, other: &Self) -> bool {
        &&& self.spec_family() == other.spec_family()
        &&& self.spec_layer() == other.spec_layer()
        &&& self.spec_schema_version() == other.spec_schema_version()
        &&& self.spec_created_at() == other.spec_created_at()
        &&& self.secondary_kind() == other.secondary_kind()
    }

    /// The error `add_rule` gives for a rule, if any.
    pub open spec fn add_error(&self, rule: Arc<RuleInstance>) -> Option<Seq<char>> {
        if (*rule).spec_family() != self.spec_family() {
            Some(mismatch_message(self.spec_family(), (*rule).spec_family()))
        } else if ids(self.entries()).contains(rid(rule)) {
            Some(duplicate_message(rid(rule)))
        } else {
            None
        }
    }

    /// The first rule of a list that is not of the table's family, or -1.
    pub open spec fn first_foreign(&self, rules: Seq<Arc<RuleInstance>>) -> int {
        first_where(rules, |r: Arc<RuleInstance>| (*r).spec_family() != self.spec_family())
    }

    /// The first rule of a list whose id is already in the table, or -1.
    pub open spec fn first_present(&self, rules: Seq<Arc<RuleInstance>>) -> int {
        first_where(rules, |r: Arc<RuleInstance>| ids(self.entries()).contains(rid(r)))
    }

    /// The error `add_rules_batch` gives for a list, if any.
    pub open spec fn batch_error(&self, rules: Seq<Arc<RuleInstance>>) -> Option<Seq<char>> {
        if rules.len() == 0 {
            None
        } else if self.first_foreign(rules) >= 0 {
            Some(mismatch_message(self.spec_family(), (*rules[self.first_foreign(rules)]).spec_family()))
        } else if self.first_present(rules) >= 0 {
            Some(duplicate_message(rid(rules[self.first_present(rules)])))
        } else {
            None
        }
    }

    /// The error `replace_all` gives for a list, if any.
    pub open spec fn replace_error(&self, rules: Seq<Arc<RuleInstance>>) -> Option<Seq<char>> {
        if self.first_foreign(rules) >= 0 {
            Some(mismatch_message(self.spec_family(), (*rules[self.first_foreign(rules)]).spec_family()))
        } else {
            None
        }
    }

    /// The index a table holds after the rules were added in turn to `before`.
    pub open spec fn indexed_after(
        &self,
        before: &Self,
        rules: Seq<Arc<RuleInstance>>,
    ) -> bool {
        &&& self.agent_index() == agent_index_after(before.agent_index(), rules)
        &&& self.global_rules() == globals_after(before.global_rules(), rules)
        &&& self.secondary_index() == before.secondary_index()
    }

    /// A new empty table for the family.
    pub fn new(family_id: RuleFamilyId, layer_id: LayerId) -> (r: Self)
        ensures
            r.wf(),
            r.spec_family() == family_id,
            r.spec_layer() == layer_id,
            r.spec_schema_version() == 1,
            r.spec_version() == 0,
            r.entries().len() == 0,
            r.agent_index().len() == 0,
            r.secondary_index().len() == 0,
            r.global_rules().len() == 0,
            r.secondary_kind() == secondary_for(family_id),
            r.meta().rule_count == 0,
            r.meta().global_count == 0,
            r.meta().scoped_count == 0,
            r.meta().last_updated == 0,
    {
        let secondary_type = Self::determine_secondary_index_type(&family_id);
        let r = RuleFamilyTable {
            family_id,
            layer_id,
            schema_version: 1,
            version: 0,
            created_at: now_ms(),
            metadata: TableMetadata::new(1),
            indices: FamilyIndices::new(secondary_type),
            entries: Vec::new(),
        };
        r
    }

    /// The secondary index kind of a family.
    fn determine_secondary_index_type(family_id: &RuleFamilyId) -> (r: SecondaryIndexType)
        ensures
            r == secondary_for(*family_id),
    {
        match family_id {
            RuleFamilyId::NetworkEgress => SecondaryIndexType::Domain,
            RuleFamilyId::SidecarSpawn => SecondaryIndexType::Image,
            RuleFamilyId::ToolWhitelist | RuleFamilyId::ToolParamConstraint => {
                SecondaryIndexType::Tool
            },
            RuleFamilyId::RAGSource | RuleFamilyId::RAGDocSensitivity => SecondaryIndexType::Source,
            _ => SecondaryIndexType::NoSecondary,
        }
    }

    /// The family id.
    pub fn family_id(&self) -> (r: &RuleFamilyId)
        ensures
            *r == self.spec_family(),
    {
        &self.family_id
    }

    /// The layer id.
    pub fn layer_id(&self) -> (r: &LayerId)
        ensures
            *r == self.spec_layer(),
    {
        &self.layer_id
    }

    /// The current version.
    pub fn version(&self) -> (r: u64)
        ensures
            r == self.spec_version(),
    {
        self.version
    }

    /// The schema version.
    pub fn schema_version(&self) -> (r: u32)
        ensures
            r == self.spec_schema_version(),
    {
        self.schema_version
    }

    /// The creation time.
    pub fn created_at(&self) -> (r: u64)
        ensures
            r == self.spec_created_at(),
    {
        self.created_at
    }

    /// A snapshot of the counters.
    pub fn metadata(&self) -> (r: TableMetadata)
        ensures
            r == self.meta(),
    {
        self.metadata.snapshot()
    }

    /// Statistics of the indices.
    pub fn index_stats(&self) -> (r: IndexStats)
        ensures
            r.agent_index_size == self.agent_index().len(),
            r.secondary_index_size == self.secondary_index().len(),
            r.global_count == self.global_rules().len(),
            r.total_agent_rules == if total_rules(self.agent_index()) <= usize::MAX {
                total_rules(self.agent_index())
            } else {
                usize::MAX as nat
            },
            r.total_secondary_rules == if total_rules(self.secondary_index()) <= usize::MAX {
                total_rules(self.secondary_index())
            } else {
                usize::MAX as nat
            },
            r.secondary_type == self.secondary_kind(),
    {
        self.indices.stats()
    }

    /// The mismatch error for a rule.
    fn mismatch(&self, got: RuleFamilyId) -> (r: String)
        ensures
            r@ == mismatch_message(self.family_id, got),
    {
        concat4("Rule family mismatch: expected ", self.family_id.family_id(), ", got ", got.family_id())
    }

    /// Adds a rule: fails on a rule of another family or an id already present, and
    /// otherwise indexes it, updates the counters and bumps the version.
    pub fn add_rule(&mut self, rule: Arc<RuleInstance>) -> (r: Result<(), String>)
        requires
            old(self).wf(),
            old(self).spec_version() < u64::MAX,
            old(self).entries().len() < usize::MAX,
        ensures
            final(self).wf(),
            final(self).same_identity(old(self)),
            r is Err <==> old(self).add_error(rule) is Some,
            r matches Err(e) ==> e@ == old(self).add_error(rule)->0 && *final(self) == *old(self),
            r is Ok ==> {
                &&& final(self).entries() == old(self).entries().push(rule)
                &&& final(self).indexed_after(old(self), seq![rule])
                &&& final(self).spec_version() == old(self).spec_version() + 1
                &&& final(self).meta().rule_count == old(self).meta().rule_count + 1
                &&& final(self).meta().global_count == old(self).meta().global_count + if (*rule).spec_scope().is_global {
                    1int
                } else {
                    0int
                }
                &&& final(self).meta().scoped_count == old(self).meta().scoped_count + if (*rule).spec_scope().is_global {
                    0int
                } else {
                    1int
                }
                &&& find_first(final(self).entries(), rid(rule)) == Some(rule)
            },
    {
        let ghost added = rule;
        let inner: &RuleInstance = &*rule;
        if inner.family_id() != self.family_id {
            return Err(self.mismatch(inner.family_id()));
        }
        match position_of_id(&self.entries, inner.rule_id()) {
            Some(k) => {
                assert(ids(self.entries@)[k as int] == rid(rule));
                return Err(concat3("Rule ", inner.rule_id(), " already exists in table"));
            },
            None => {},
        }
        let global = inner.is_global();
        let ghost old_entries = self.entries@;
        self.entries.push(arc_share(&rule));
        self.indices.add_rule(rule);
        proof {
            lemma_count_global_bound(old_entries);
            assert(self.entries@.drop_last() =~= old_entries);
            reveal_with_fuel(agent_index_after, 2);
            reveal_with_fuel(globals_after, 2);
            assert(seq![self.entries@.last()].drop_last() =~= Seq::<Arc<RuleInstance>>::empty());
        }
        self.metadata.rule_count = self.metadata.rule_count + 1;
        if global {
            self.metadata.global_count = self.metadata.global_count + 1;
        } else {
            self.metadata.scoped_count = self.metadata.scoped_count + 1;
        }
        self.metadata.last_updated = now_ms();
        self.version = self.version + 1;
        proof {
            lemma_add_rule_counts(*old(self), *self, added);
            lemma_add_then_find(*old(self), *self, added);
        }
        Ok(())
    }

    /// The first rule of the list that is not of this table's family.
    fn find_foreign(&self, rules: &Vec<Arc<RuleInstance>>) -> (r: Option<usize>)
        ensures
            match r {
                Some(k) => k as int == self.first_foreign(rules@) && k < rules@.len(),
                None => self.first_foreign(rules@) == -1 && forall|j: int|
                    0 <= j < rules@.len() ==> (*(#[trigger] rules@[j])).spec_family() == self.spec_family(),
            },
    {
        let ghost p = |r: Arc<RuleInstance>| (*r).spec_family() != self.spec_family();
        let n = rules.len();
        let mut i: usize = 0;
        while i < n
            invariant
                n == rules@.len(),
                i <= n,
                p == (|r: Arc<RuleInstance>| (*r).spec_family() != self.spec_family()),
                forall|j: int| 0 <= j < i ==> !p(#[trigger] rules@[j]),
            decreases n - i,
        {
            let inner: &RuleInstance = &*rules[i];
            if inner.family_id() != self.family_id {
                proof {
                    lemma_first_where_found(rules@, p, i as int);
                }
                return Some(i);
            }
            i = i + 1;
        }
        proof {
            lemma_first_where_absent(rules@, p);
        }
        None
    }

    /// The first rule of the list whose id is already in the table.
    fn find_present(&self, rules: &Vec<Arc<RuleInstance>>) -> (r: Option<usize>)
        ensures
            match r {
                Some(k) => k as int == self.first_present(rules@) && k < rules@.len(),
                None => self.first_present(rules@) == -1 && forall|j: int|
                    0 <= j < rules@.len() ==> !ids(self.entries()).contains(rid(#[trigger] rules@[j])),
            },
    {
        let ghost p = |r: Arc<RuleInstance>| ids(self.entries()).contains(rid(r));
        let n = rules.len();
        let mut i: usize = 0;
        while i < n
            invariant
                n == rules@.len(),
                i <= n,
                p == (|r: Arc<RuleInstance>| ids(self.entries()).contains(rid(r))),
                forall|j: int| 0 <= j < i ==> !p(#[trigger] rules@[j]),
            decreases n - i,
        {
            let inner: &RuleInstance = &*rules[i];
            match position_of_id(&self.entries, inner.rule_id()) {
                Some(k) => {
                    proof {
                        assert(ids(self.entries@)[k as int] == rid(rules@[i as int]));
                        lemma_first_where_found(rules@, p, i as int);
                    }
                    return Some(i);
                },
                None => {},
            }
            i = i + 1;
        }
        proof {
            lemma_first_where_absent(rules@, p);
        }
        None
    }

    /// The error adding the rules at once would give, if any; the table is not changed.
    pub fn check_batch(&self, rules: &Vec<Arc<RuleInstance>>) -> (r: Option<String>)
        ensures
            match r {
                Some(e) => self.batch_error(rules@) == Some(e@),
                None => self.batch_error(rules@) is None,
            },
    {
        if rules.len() == 0 {
            return None;
        }
        match self.find_foreign(rules) {
            Some(k) => {
                let inner: &RuleInstance = &*rules[k];
                return Some(self.mismatch(inner.family_id()));
            },
            None => {},
        }
        match self.find_present(rules) {
            Some(k) => {
                let inner: &RuleInstance = &*rules[k];
                return Some(concat3("Rule ", inner.rule_id(), " already exists in table"));
            },
            None => {},
        }
        None
    }

    /// Adds several rules at once: fails on the first rule of another family, or else
    /// on the first rule whose id is already present (ids within the list are not
    /// compared with each other); otherwise adds all, updating version and counters
    /// once. An empty list changes nothing.
    #[verifier::rlimit(40)]
    pub fn add_rules_batch(&mut self, rules: Vec<Arc<RuleInstance>>) -> (r: Result<(), String>)
        requires
            old(self).wf(),
            old(self).spec_version() < u64::MAX,
            old(self).entries().len() + rules@.len() <= usize::MAX,
        ensures
            final(self).wf(),
            final(self).same_identity(old(self)),
            r is Err <==> old(self).batch_error(rules@) is Some,
            r matches Err(e) ==> e@ == old(self).batch_error(rules@)->0,
            r is Err || rules@.len() == 0 ==> *final(self) == *old(self),
            r is Ok && rules@.len() > 0 ==> {
                &&& final(self).entries() == old(self).entries() + rules@
                &&& final(self).indexed_after(old(self), rules@)
                &&& final(self).spec_version() == old(self).spec_version() + 1
                &&& final(self).meta().rule_count == old(self).meta().rule_count + rules@.len()
                &&& final(self).meta().global_count == old(self).meta().global_count + count_global(rules@)
                &&& final(self).meta().global_count + final(self).meta().scoped_count == final(self).meta().rule_count
            },
    {
        if rules.len() == 0 {
            return Ok(());
        }
        match self.find_foreign(&rules) {
            Some(k) => {
                let inner: &RuleInstance = &*rules[k];
                return Err(self.mismatch(inner.family_id()));
            },
            None => {},
        }
        match self.find_present(&rules) {
            Some(k) => {
                let inner: &RuleInstance = &*rules[k];
                return Err(concat3("Rule ", inner.rule_id(), " already exists in table"));
            },
            None => {},
        }
        let ghost old_entries = self.entries@;
        let ghost old_agent = self.indices.agent_view();
        let ghost old_globals = self.indices.globals@;
        let ghost old_secondary = self.indices.secondary_view();
        let ghost fam = self.family_id;
        let n = rules.len();
        let mut global_count: usize = 0;
        let mut i: usize = 0;
        while i < n
            invariant
                n == rules@.len(),
                i <= n,
                self.family_id == fam,
                forall|j: int| 0 <= j < n ==> (*(#[trigger] rules@[j])).spec_family() == fam,
                self.entries@ == old_entries + rules@.take(i as int),
                self.indices.agent_view() == agent_index_after(old_agent, rules@.take(i as int)),
                self.indices.globals@ == globals_after(old_globals, rules@.take(i as int)),
                self.indices.secondary_view() == old_secondary,
                self.indices.secondary_type == old(self).indices.secondary_type,
                self.indices.sound(),
                global_count == count_global(rules@.take(i as int)),
                global_count <= i,
                self.metadata == old(self).metadata,
                self.version == old(self).version,
                self.layer_id == old(self).layer_id,
                self.schema_version == old(self).schema_version,
                self.created_at == old(self).created_at,
            decreases n - i,
        {
            let rule = arc_share(&rules[i]);
            let inner: &RuleInstance = &*rule;
            let global = inner.is_global();
            self.entries.push(arc_share(&rule));
            self.indices.add_rule(rule);
            proof {
                let t = rules@.take(i + 1);
                assert(t.drop_last() =~= rules@.take(i as int));
                assert(t.last() == rules@[i as int]);
                assert(old_entries + t =~= (old_entries + rules@.take(i as int)).push(rules@[i as int]));
            }
            if global {
                global_count = global_count + 1;
            }
            i = i + 1;
        }
        proof {
            assert(rules@.take(n as int) =~= rules@);
            lemma_count_global_append(old_entries, rules@);
            lemma_count_global_bound(old_entries);
            lemma_count_global_bound(rules@);
            assert forall|j: int| 0 <= j < self.entries@.len() implies (*(#[trigger] self.entries@[j])).spec_family() == self.family_id by {
                if j < old_entries.len() {
                    assert(self.entries@[j] == old_entries[j]);
                } else {
                    assert(self.entries@[j] == rules@[j - old_entries.len()]);
                }
            }
        }
        self.metadata.rule_count = self.metadata.rule_count + n;
        self.metadata.global_count = self.metadata.global_count + global_count;
        self.metadata.scoped_count = self.metadata.scoped_count + (n - global_count);
        self.metadata.last_updated = now_ms();
        self.version = self.version + 1;
        proof {
            lemma_batch_counts(*old(self), *self, rules@);
        }
        Ok(())
    }

    /// Removes the first rule with the id. Answers `Ok(true)` when one was removed (the
    /// indices drop it, the counters and version follow) and `Ok(false)` otherwise.
    pub fn remove_rule(&mut self, rule_id: &str) -> (r: Result<bool, String>)
        requires
            old(self).wf(),
            old(self).spec_version() < u64::MAX,
        ensures
            final(self).wf(),
            final(self).same_identity(old(self)),
            r == Ok::<bool, String>(ids(old(self).entries()).contains(rule_id@)),
            !ids(old(self).entries()).contains(rule_id@) ==> *final(self) == *old(self),
            ids(old(self).entries()).contains(rule_id@) ==> {
                &&& final(self).entries() == remove_first_id(old(self).entries(), rule_id@)
                &&& final(self).agent_index() == bucket_remove_all(old(self).agent_index(), rule_id@)
                &&& final(self).secondary_index() == bucket_remove_all(old(self).secondary_index(), rule_id@)
                &&& final(self).global_rules() == remove_first_id(old(self).global_rules(), rule_id@)
                &&& final(self).spec_version() == old(self).spec_version() + 1
            },
    {
        match position_of_id(&self.entries, rule_id) {
            None => Ok(false),
            Some(pos) => {
                let ghost old_entries = self.entries@;
                let inner: &RuleInstance = &*self.entries[pos];
                let was_global = inner.is_global();
                proof {
                    crate::bridge::rule_seq::lemma_remove_first_at(old_entries, rule_id@, pos as int);
                    lemma_count_global_remove(old_entries, pos as int);
                    lemma_count_global_bound(self.entries@.remove(pos as int));
                    assert(ids(old_entries)[pos as int] == rule_id@);
                }
                self.entries.remove(pos);
                assert forall|j: int| 0 <= j < self.entries@.len() implies (*(#[trigger] self.entries@[j])).spec_family() == self.family_id by {
                    if j < pos {
                        assert(self.entries@[j] == old_entries[j]);
                    } else {
                        assert(self.entries@[j] == old_entries[j + 1]);
                    }
                }
                self.indices.remove_rule(rule_id);
                self.metadata.rule_count = self.metadata.rule_count - 1;
                if was_global {
                    self.metadata.global_count = self.metadata.global_count - 1;
                } else {
                    self.metadata.scoped_count = self.metadata.scoped_count - 1;
                }
                self.metadata.last_updated = now_ms();
                self.version = self.version + 1;
                Ok(true)
            },
        }
    }

    /// Removes every rule.
    pub fn clear(&mut self)
        requires
            old(self).wf(),
            old(self).spec_version() < u64::MAX,
        ensures
            final(self).wf(),
            final(self).same_identity(old(self)),
            final(self).entries().len() == 0,
            final(self).agent_index().len() == 0,
            final(self).secondary_index().len() == 0,
            final(self).global_rules().len() == 0,
            final(self).spec_version() == old(self).spec_version() + 1,
    {
        self.entries.clear();
        self.indices.clear();
        self.metadata.rule_count = 0;
        self.metadata.global_count = 0;
        self.metadata.scoped_count = 0;
        self.metadata.last_updated = now_ms();
        self.version = self.version + 1;
        assert(count_global(self.entries@) == 0);
    }

    /// Replaces every rule with the given ones, rebuilding the indices: fails on the
    /// first rule of another family and then changes nothing.
    pub fn replace_all(&mut self, rules: Vec<Arc<RuleInstance>>) -> (r: Result<(), String>)
        requires
            old(self).wf(),
            old(self).spec_version() < u64::MAX,
        ensures
            final(self).wf(),
            final(self).same_identity(old(self)),
            r is Err <==> old(self).replace_error(rules@) is Some,
            r matches Err(e) ==> e@ == old(self).replace_error(rules@)->0 && *final(self) == *old(self),
            r is Ok ==> {
                &&& final(self).entries() == rules@
                &&& final(self).agent_index() == agent_index_after(Seq::empty(), rules@)
                &&& final(self).global_rules() == globals_after(Seq::empty(), rules@)
                &&& final(self).secondary_index().len() == 0
                &&& final(self).spec_version() == old(self).spec_version() + 1
                &&& final(self).meta().rule_count == rules@.len()
                &&& final(self).meta().global_count == count_global(rules@)
                &&& final(self).meta().scoped_count == rules@.len() - count_global(rules@)
                &&& forall|id: Seq<char>| #[trigger] find_first(final(self).entries(), id) is Some <==> ids(rules@).contains(id)
            },
    {
        match self.find_foreign(&rules) {
            Some(k) => {
                let inner: &RuleInstance = &*rules[k];
                return Err(self.mismatch(inner.family_id()));
            },
            None => {},
        }
        let ghost fam = self.family_id;
        let secondary_type = Self::determine_secondary_index_type(&self.family_id);
        let mut new_indices = FamilyIndices::new(secondary_type);
        let n = rules.len();
        let mut global_count: usize = 0;
        let mut i: usize = 0;
        while i < n
            invariant
                n == rules@.len(),
                i <= n,
                forall|j: int| 0 <= j < n ==> (*(#[trigger] rules@[j])).spec_family() == fam,
                new_indices.agent_view() == agent_index_after(Seq::empty(), rules@.take(i as int)),
                new_indices.globals@ == globals_after(Seq::empty(), rules@.take(i as int)),
                new_indices.secondary_view().len() == 0,
                new_indices.secondary_type == secondary_for(fam),
                new_indices.sound(),
                global_count == count_global(rules@.take(i as int)),
                global_count <= i,
            decreases n - i,
        {
            let rule = arc_share(&rules[i]);
            let inner: &RuleInstance = &*rule;
            if inner.is_global() {
                global_count = global_count + 1;
            }
            new_indices.add_rule(rule);
            proof {
                let t = rules@.take(i + 1);
                assert(t.drop_last() =~= rules@.take(i as int));
                assert(t.last() == rules@[i as int]);
            }
            i = i + 1;
        }
        proof {
            assert(rules@.take(n as int) =~= rules@);
            assert(agent_index_after(Seq::empty(), Seq::<Arc<RuleInstance>>::empty()) =~= Seq::<BucketView>::empty());
        }
        self.entries = rules;
        self.indices = new_indices;
        self.metadata.rule_count = n;
        self.metadata.global_count = global_count;
        self.metadata.scoped_count = n - global_count;
        self.metadata.last_updated = now_ms();
        self.version = self.version + 1;
        proof {
            assert forall|id: Seq<char>| #[trigger] find_first(self.entries(), id) is Some <==> ids(self.entries()).contains(id) by {
                lemma_find_iff_contains(self.entries(), id);
            }
        }
        Ok(())
    }

    /// Rules for an agent plus global rules, by priority (highest first).
    pub fn query_by_agent(&self, agent_id: &str) -> (r: Vec<Arc<RuleInstance>>)
        ensures
            r@ == sort_by_priority(rules_for_key(self.agent_index(), agent_id@) + self.global_rules()),
    {
        self.indices.query_by_agent(agent_id)
    }

    /// Rules for a secondary key plus global rules, by priority.
    pub fn query_by_secondary(&self, key: &str) -> (r: Vec<Arc<RuleInstance>>)
        ensures
            r@ == sort_by_priority(rules_for_key(self.secondary_index(), key@) + self.global_rules()),
    {
        self.indices.query_by_secondary(key)
    }

    /// Rules for an agent or a secondary key plus global rules, each id once, by
    /// priority.
    pub fn query_by_agent_and_secondary(&self, agent_id: &str, secondary_key: &str) -> (r: Vec<
        Arc<RuleInstance>,
    >)
        ensures
            r@ == sort_by_priority(
                dedup_by_id(
                    rules_for_key(self.agent_index(), agent_id@) + rules_for_key(
                        self.secondary_index(),
                        secondary_key@,
                    ) + self.global_rules(),
                ),
            ),
    {
        self.indices.query_by_agent_and_secondary(agent_id, secondary_key)
    }

    /// The global rules by priority.
    pub fn query_globals(&self) -> (r: Vec<Arc<RuleInstance>>)
        ensures
            r@ == sort_by_priority(self.global_rules()),
    {
        self.indices.query_globals()
    }

    /// Every indexed rule, each id once, by priority.
    pub fn query_all(&self) -> (r: Vec<Arc<RuleInstance>>)
        ensures
            r@ == sort_by_priority(
                dedup_by_id(flatten(self.agent_index()) + flatten(self.secondary_index()) + self.global_rules()),
            ),
    {
        self.indices.query_all()
    }

    /// The first rule with the id.
    pub fn find_rule(&self, rule_id: &str) -> (r: Option<Arc<RuleInstance>>)
        ensures
            r == find_first(self.entries(), rule_id@),
    {
        find_first_rule(&self.entries, rule_id)
    }

    /// The number of rules.
    pub fn rule_count(&self) -> (r: usize)
        ensures
            r == self.entries().len(),
    {
        self.entries.len()
    }

    /// Whether the table holds no rule.
    pub fn is_empty(&self) -> (r: bool)
        ensures
            r == (self.entries().len() == 0),
    {
        self.entries.len() == 0
    }

    /// The counters of a well-formed table agree with its rules: the rule count is the
    /// number of rules, split into global and scoped rules.
    pub proof fn lemma_counters(&self)
        requires
            self.wf(),
        ensures
            self.meta().rule_count == self.entries().len(),
            self.meta().global_count == count_global(self.entries()),
            self.meta().global_count + self.meta().scoped_count == self.entries().len(),
            self.meta().schema_version == self.spec_schema_version(),
            forall|i: int| 0 <= i < self.entries().len() ==> (*(#[trigger] self.entries()[i])).spec_family() == self.spec_family(),
    {
        lemma_count_global_bound(self.entries@);
    }
}

/// Every rule that a query by agent returns applies to that agent: its scope is global
/// or lists the agent.
pub proof fn lemma_query_by_agent_sound(t: RuleFamilyTable, agent: Seq<char>, r: Arc<RuleInstance>)
    requires
        t.wf(),
        sort_by_priority(rules_for_key(t.agent_index(), agent) + t.global_rules()).contains(r),
    ensures
        (*r).spec_scope().is_global || (*r).spec_scope().agents().contains(agent),
{
    broadcast use vstd::seq_lib::group_to_multiset_ensures;
    let found = rules_for_key(t.agent_index(), agent);
    let all = found + t.global_rules();
    lemma_sort_by_priority(all);
    assert(sort_by_priority(all).to_multiset().count(r) > 0);
    assert(all.contains(r));
    let k = choose|k: int| 0 <= k < all.len() && all[k] == r;
    if k < found.len() {
        let b = crate::bridge::indices::key_index(t.agent_index(), agent);
        assert(b >= 0);
        let w = choose|w: int| crate::bridge::indices::is_first_key(t.agent_index(), agent, w);
        assert(t.agent_index()[b].0 == agent);
        assert(found[k] == t.agent_index()[b].1[k]);
        assert((*t.agent_index()[b].1[k]).spec_scope().agents().contains(t.agent_index()[b].0));
    } else {
        assert(all[k] == t.global_rules()[k - found.len()]);
    }
}

/// After a rule is added to a table whose rules have other identifiers, a lookup of
/// its identifier finds it.
pub proof fn lemma_add_then_find(before: RuleFamilyTable, after: RuleFamilyTable, rule: Arc<RuleInstance>)
    requires
        before.add_error(rule) is None,
        after.entries() == before.entries().push(rule),
    ensures
        find_first(after.entries(), rid(rule)) == Some(rule),
{
    lemma_find_after_push(before.entries(), rule);
}

/// In a table whose identifiers are not repeated, after the rule with an identifier is
/// removed a lookup of it finds nothing, and lookups of other identifiers are unchanged.
pub proof fn lemma_remove_then_absent(before: RuleFamilyTable, after: RuleFamilyTable, id: Seq<char>, other: Seq<char>)
    requires
        ids(before.entries()).no_duplicates(),
        after.entries() == remove_first_id(before.entries(), id),
    ensures
        find_first(after.entries(), id) is None,
        other != id ==> find_first(after.entries(), other) == find_first(before.entries(), other),
{
    lemma_find_after_remove(before.entries(), id, other);
}


proof fn lemma_count_global_push(s: Seq<Arc<RuleInstance>>, r: Arc<RuleInstance>)
    ensures
        count_global(s.push(r)) == count_global(s) + if (*r).spec_scope().is_global {
            1nat
        } else {
            0nat
        },
{
    assert(s.push(r).drop_last() =~= s);
}

/// A search finds a rule with an identifier exactly when some rule has it.
pub proof fn lemma_find_iff_contains(s: Seq<Arc<RuleInstance>>, id: Seq<char>)
    ensures
        find_first(s, id) is Some <==> ids(s).contains(id),
    decreases s.len(),
{
    if s.len() > 0 {
        let t = s.drop_first();
        lemma_find_iff_contains(t, id);
        assert(ids(s)[0] == rid(s[0]));
        if ids(t).contains(id) {
            let k = choose|k: int| 0 <= k < ids(t).len() && ids(t)[k] == id;
            assert(ids(s)[k + 1] == id);
        }
        if ids(s).contains(id) && rid(s[0]) != id {
            let k = choose|k: int| 0 <= k < ids(s).len() && ids(s)[k] == id;
            assert(k > 0);
            assert(ids(t)[k - 1] == id);
        }
    }
}

/// Adding one rule raises the rule count by one, and with it the global count when the
/// rule's scope is global and the scoped count otherwise.
pub proof fn lemma_add_rule_counts(before: RuleFamilyTable, after: RuleFamilyTable, rule: Arc<RuleInstance>)
    requires
        before.wf(),
        after.wf(),
        after.entries() == before.entries().push(rule),
    ensures
        after.meta().rule_count == before.meta().rule_count + 1,
        after.meta().global_count == before.meta().global_count + if (*rule).spec_scope().is_global {
            1int
        } else {
            0int
        },
        after.meta().scoped_count == before.meta().scoped_count + if (*rule).spec_scope().is_global {
            0int
        } else {
            1int
        },
{
    lemma_count_global_push(before.entries(), rule);
    lemma_count_global_bound(before.entries());
}

/// Adding a list of rules raises the rule count by the list's length and the global
/// count by its global rules; global and scoped rules still add up to all rules.
pub proof fn lemma_batch_counts(before: RuleFamilyTable, after: RuleFamilyTable, rules: Seq<Arc<RuleInstance>>)
    requires
        before.wf(),
        after.wf(),
        after.entries() == before.entries() + rules,
    ensures
        after.meta().rule_count == before.meta().rule_count + rules.len(),
        after.meta().global_count == before.meta().global_count + count_global(rules),
        after.meta().global_count + after.meta().scoped_count == after.meta().rule_count,
{
    lemma_count_global_append(before.entries(), rules);
    lemma_count_global_bound(after.entries());
}

/// After the rules are replaced by a list, the counters are those of the list, and a
/// lookup finds a rule exactly for the identifiers of the list.
pub proof fn lemma_replace_counts(after: RuleFamilyTable, rules: Seq<Arc<RuleInstance>>, id: Seq<char>)
    requires
        after.wf(),
        after.entries() == rules,
    ensures
        after.meta().rule_count == rules.len(),
        after.meta().global_count == count_global(rules),
        after.meta().scoped_count == rules.len() - count_global(rules),
        find_first(after.entries(), id) is Some <==> ids(rules).contains(id),
{
    lemma_count_global_bound(rules);
    lemma_find_iff_contains(rules, id);
}

} // verus!

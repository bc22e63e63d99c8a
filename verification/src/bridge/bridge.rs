//! The bridge: one rule family table per family, with a global version and a staged
//! version for hot reloads.
use vstd::prelude::*;
use std::sync::Arc;
use crate::bridge::rule_instance::RuleInstance;
use crate::bridge::rule_seq::{find_first, ids, remove_first_id, rid, sort_by_priority};
use crate::bridge::indices::{bucket_remove_all, rules_for_key};
use crate::bridge::table::RuleFamilyTable;
use crate::bridge::types::{all_families, family_layer, now_ms, LayerId, RuleFamilyId};
use crate::text::owned;

verus! {

/// The position of a family in `RuleFamilyId::all()`.
pub open spec fn family_index(f: RuleFamilyId) -> int {
    match f {
        RuleFamilyId::NetworkEgress => 0,
        RuleFamilyId::SidecarSpawn => 1,
        RuleFamilyId::InputSchema => 2,
        RuleFamilyId::InputSanitize => 3,
        RuleFamilyId::PromptAssembly => 4,
        RuleFamilyId::PromptLength => 5,
        RuleFamilyId::ModelOutputScan => 6,
        RuleFamilyId::ModelOutputEscalate => 7,
        RuleFamilyId::ToolWhitelist => 8,
        RuleFamilyId::ToolParamConstraint => 9,
        RuleFamilyId::RAGSource => 10,
        RuleFamilyId::RAGDocSensitivity => 11,
        RuleFamilyId::OutputPII => 12,
        RuleFamilyId::OutputAudit => 13,
    }
}

/// The number of families.
pub const FAMILY_COUNT: usize = 14;

fn family_position(f: &RuleFamilyId) -> (r: usize)
    ensures
        r == family_index(*f),
        r < FAMILY_COUNT,
{
    match f {
        RuleFamilyId::NetworkEgress => 0,
        RuleFamilyId::SidecarSpawn => 1,
        RuleFamilyId::InputSchema => 2,
        RuleFamilyId::InputSanitize => 3,
        RuleFamilyId::PromptAssembly => 4,
        RuleFamilyId::PromptLength => 5,
        RuleFamilyId::ModelOutputScan => 6,
        RuleFamilyId::ModelOutputEscalate => 7,
        RuleFamilyId::ToolWhitelist => 8,
        RuleFamilyId::ToolParamConstraint => 9,
        RuleFamilyId::RAGSource => 10,
        RuleFamilyId::RAGDocSensitivity => 11,
        RuleFamilyId::OutputPII => 12,
        RuleFamilyId::OutputAudit => 13,
    }
}

proof fn lemma_family_index(f: RuleFamilyId)
    ensures
        0 <= family_index(f) < 14,
        all_families()[family_index(f)] == f,
{
}

/// The number of rules over a sequence of tables.
pub open spec fn total_entries(ts: Seq<RuleFamilyTable>) -> nat
    decreases ts.len(),
{
    if ts.len() == 0 {
        0
    } else {
        total_entries(ts.drop_last()) + ts.last().entries().len()
    }
}

proof fn lemma_total_update(ts: Seq<RuleFamilyTable>, i: int, t: RuleFamilyTable)
    requires
        0 <= i < ts.len(),
    ensures
        total_entries(ts.update(i, t)) + ts[i].entries().len() == total_entries(ts) + t.entries().len(),
    decreases ts.len(),
{
    if i == ts.len() - 1 {
        assert(ts.update(i, t).drop_last() =~= ts.drop_last());
    } else {
        lemma_total_update(ts.drop_last(), i, t);
        assert(ts.update(i, t).drop_last() =~= ts.drop_last().update(i, t));
    }
}

proof fn lemma_total_prefix(ts: Seq<RuleFamilyTable>, k: int)
    requires
        0 <= k <= ts.len(),
    ensures
        total_entries(ts.take(k)) <= total_entries(ts),
    decreases ts.len(),
{
    if k < ts.len() {
        lemma_total_prefix(ts.drop_last(), k);
        assert(ts.drop_last().take(k) =~= ts.take(k));
    } else {
        assert(ts.take(k) =~= ts);
    }
}

proof fn lemma_total_bound(ts: Seq<RuleFamilyTable>, i: int)
    requires
        0 <= i < ts.len(),
    ensures
        ts[i].entries().len() <= total_entries(ts),
    decreases ts.len(),
{
    if i < ts.len() - 1 {
        lemma_total_bound(ts.drop_last(), i);
    }
}

/// The family at a position of `RuleFamilyId::all()`.
pub open spec fn family_at(i: int) -> RuleFamilyId {
    all_families()[i]
}

/// The rules of a family, in order.
pub open spec fn group_for(rules: Seq<Arc<RuleInstance>>, f: RuleFamilyId) -> Seq<Arc<RuleInstance>>
    decreases rules.len(),
{
    if rules.len() == 0 {
        rules
    } else {
        let g = group_for(rules.drop_last(), f);
        if (*rules.last()).spec_family() == f {
            g.push(rules.last())
        } else {
            g
        }
    }
}

/// The sizes of the groups of the first `k` families, added up.
pub open spec fn groups_len(rules: Seq<Arc<RuleInstance>>, k: nat) -> nat
    decreases k,
{
    if k == 0 {
        0
    } else {
        groups_len(rules, (k - 1) as nat) + group_for(rules, family_at(k - 1)).len()
    }
}

/// After a batch, a table holds its rules of the batch appended (or is untouched when
/// it got none).
#[verifier::opaque]
pub open spec fn batch_applied(
    after: RuleFamilyTable,
    before: RuleFamilyTable,
    rules: Seq<Arc<RuleInstance>>,
) -> bool {
    &&& after.wf()
    &&& after.same_identity(&before)
    &&& if rules.len() == 0 {
        after == before
    } else {
        &&& after.entries() == before.entries() + rules
        &&& after.indexed_after(&before, rules)
        &&& after.spec_version() == before.spec_version() + 1
    }
}

proof fn lemma_family_at(i: int)
    requires
        0 <= i < 14,
    ensures
        family_index(family_at(i)) == i,
{
}

proof fn lemma_groups_len_push(r: Seq<Arc<RuleInstance>>, x: Arc<RuleInstance>, k: nat)
    requires
        k <= 14,
    ensures
        groups_len(r.push(x), k) == groups_len(r, k) + if family_index((*x).spec_family()) < k {
            1nat
        } else {
            0nat
        },
    decreases k,
{
    if k > 0 {
        lemma_groups_len_push(r, x, (k - 1) as nat);
        assert(r.push(x).drop_last() =~= r);
        lemma_family_at(k - 1);
        lemma_family_index((*x).spec_family());
    }
}

proof fn lemma_groups_partition(r: Seq<Arc<RuleInstance>>)
    ensures
        groups_len(r, 14) == r.len(),
    decreases r.len(),
{
    if r.len() > 0 {
        lemma_groups_partition(r.drop_last());
        lemma_groups_len_push(r.drop_last(), r.last(), 14);
        lemma_family_index((*r.last()).spec_family());
        assert(r.drop_last().push(r.last()) =~= r);
    } else {
        lemma_groups_zero(r, 14);
    }
}

proof fn lemma_groups_zero(r: Seq<Arc<RuleInstance>>, k: nat)
    requires
        r.len() == 0,
    ensures
        groups_len(r, k) == 0,
    decreases k,
{
    if k > 0 {
        lemma_groups_zero(r, (k - 1) as nat);
    }
}

proof fn lemma_groups_mono(r: Seq<Arc<RuleInstance>>, k: nat)
    requires
        k <= 14,
    ensures
        groups_len(r, k) <= groups_len(r, 14),
    decreases 14 - k,
{
    if k < 14 {
        lemma_groups_mono(r, k + 1);
    }
}

proof fn lemma_group_family(rules: Seq<Arc<RuleInstance>>, f: RuleFamilyId)
    ensures
        forall|j: int| 0 <= j < group_for(rules, f).len() ==> (*(#[trigger] group_for(rules, f)[j])).spec_family() == f,
    decreases rules.len(),
{
    if rules.len() > 0 {
        lemma_group_family(rules.drop_last(), f);
    }
}

proof fn lemma_batch_step(
    after: RuleFamilyTable,
    before: RuleFamilyTable,
    rules: Seq<Arc<RuleInstance>>,
)
    requires
        after.wf(),
        after.same_identity(&before),
        rules.len() == 0 ==> after == before,
        rules.len() > 0 ==> {
            &&& after.entries() == before.entries() + rules
            &&& after.indexed_after(&before, rules)
            &&& after.spec_version() == before.spec_version() + 1
        },
    ensures
        batch_applied(after, before, rules),
        after.wf(),
        after.spec_family() == before.spec_family(),
        after.spec_layer() == before.spec_layer(),
{
    reveal(batch_applied);
}

/// The rules of one family, in order.
fn collect_family(rules: &Vec<Arc<RuleInstance>>, f: RuleFamilyId) -> (r: Vec<Arc<RuleInstance>>)
    ensures
        r@ == group_for(rules@, f),
{
    let mut out: Vec<Arc<RuleInstance>> = Vec::new();
    let n = rules.len();
    let mut i: usize = 0;
    while i < n
        invariant
            n == rules@.len(),
            i <= n,
            out@ == group_for(rules@.take(i as int), f),
        decreases n - i,
    {
        proof {
            let t = rules@.take(i + 1);
            assert(t.drop_last() =~= rules@.take(i as int));
            assert(t.last() == rules@[i as int]);
        }
        let inner: &RuleInstance = &*rules[i];
        if inner.family_id() == f {
            out.push(crate::bridge::rule_seq::arc_share(&rules[i]));
        }
        i = i + 1;
    }
    assert(rules@.take(n as int) =~= rules@);
    out
}

/// The first rule with the id over the tables in order.
pub open spec fn find_in_tables(ts: Seq<RuleFamilyTable>, id: Seq<char>) -> Option<Arc<RuleInstance>>
    decreases ts.len(),
{
    if ts.len() == 0 {
        None
    } else {
        match find_first(ts[0].entries(), id) {
            Some(r) => Some(r),
            None => find_in_tables(ts.drop_first(), id),
        }
    }
}

/// The global rules counted over the tables.
pub open spec fn total_global(ts: Seq<RuleFamilyTable>) -> nat
    decreases ts.len(),
{
    if ts.len() == 0 {
        0
    } else {
        total_global(ts.drop_last()) + ts.last().meta().global_count as nat
    }
}

/// The tables holding at least one rule.
pub open spec fn nonempty_tables(ts: Seq<RuleFamilyTable>) -> nat
    decreases ts.len(),
{
    if ts.len() == 0 {
        0
    } else {
        nonempty_tables(ts.drop_last()) + if ts.last().meta().rule_count > 0 {
            1nat
        } else {
            0nat
        }
    }
}

/// Bridge statistics.
#[derive(Debug, Clone)]
pub struct BridgeStats {
    /// Current bridge version
    pub version: u64,
    /// Number of tables
    pub total_tables: usize,
    /// Tables holding at least one rule
    pub tables_with_rules: usize,
    /// Rules over all tables
    pub total_rules: usize,
    /// Global rules over all tables
    pub total_global_rules: usize,
    /// Scoped rules over all tables
    pub total_scoped_rules: usize,
    /// Creation time of the bridge
    pub created_at: u64,
}

/// Statistics of one table.
#[derive(Debug, Clone)]
pub struct TableStats {
    /// Rule family
    pub family_id: RuleFamilyId,
    /// Parent layer
    pub layer_id: LayerId,
    /// Table version
    pub version: u64,
    /// Rules
    pub rule_count: usize,
    /// Global rules
    pub global_count: usize,
    /// Scoped rules
    pub scoped_count: usize,
}

/// Fourteen rule family tables, one per family, with versioning.
#[derive(Debug)]
pub struct Bridge {
    tables: Vec<RuleFamilyTable>,
    active_version: u64,
    staged_version: Option<u64>,
    created_at: u64,
}

impl Bridge {
    /// The table of a family.
    pub closed spec fn table(&self, f: RuleFamilyId) -> RuleFamilyTable {
        self.tables@[family_index(f)]
    }

    /// The tables in family order.
    pub closed spec fn tables_view(&self) -> Seq<RuleFamilyTable> {
        self.tables@
    }

    /// The active version.
    pub closed spec fn spec_version(&self) -> u64 {
        self.active_version
    }

    /// The staged version.
    pub closed spec fn spec_staged(&self) -> Option<u64> {
        self.staged_version
    }

    /// The creation time.
    pub closed spec fn spec_created_at(&self) -> u64 {
        self.created_at
    }

    /// One well-formed table per family in family order, each on its family's layer,
    /// with a rule total that fits in `usize`.
    pub closed spec fn wf(&self) -> bool {
        &&& self.tables@.len() == 14
        &&& forall|i: int|
            0 <= i < 14 ==> {
                &&& (#[trigger] self.tables@[i]).wf()
                &&& self.tables@[i].spec_family() == all_families()[i]
                &&& self.tables@[i].spec_layer() == family_layer(all_families()[i])
            }
        &&& total_entries(self.tables@) <= usize::MAX
    }

    /// The table of the family and all other tables equal those of `other`.
    pub open spec fn others_unchanged(&self, other: &Self, f: RuleFamilyId) -> bool {
        forall|g: RuleFamilyId| g != f ==> #[trigger] self.table(g) == other.table(g)
    }

    /// Both bridges hold the same tables and versions.
    pub open spec fn same_state(&self, other: &Self) -> bool {
        &&& self.tables_view() == other.tables_view()
        &&& self.spec_version() == other.spec_version()
        &&& self.spec_staged() == other.spec_staged()
        &&& self.spec_created_at() == other.spec_created_at()
    }

    /// The total number of rules.
    pub open spec fn rule_total(&self) -> nat {
        total_entries(self.tables_view())
    }

    /// A bridge with an empty table for every family, at version 0 and with nothing
    /// staged.
    pub fn init() -> (r: Self)
        ensures
            r.wf(),
            r.spec_version() == 0,
            r.spec_staged() is None,
            forall|f: RuleFamilyId|
                #![trigger r.table(f)]
                r.table(f).entries().len() == 0 && r.table(f).spec_version() == 0,
            forall|f: RuleFamilyId|
                #![trigger r.table(f)]
                r.table(f).wf() && r.table(f).spec_family() == f && r.table(f).spec_layer() == family_layer(f),
            r.rule_total() == 0,
            r.can_grow(),
    {
        let families = RuleFamilyId::all();
        let mut tables: Vec<RuleFamilyTable> = Vec::new();
        let mut i: usize = 0;
        while i < 14
            invariant
                families@ == all_families(),
                i <= 14,
                tables@.len() == i,
                forall|j: int|
                    0 <= j < i ==> {
                        &&& (#[trigger] tables@[j]).wf()
                        &&& tables@[j].spec_family() == all_families()[j]
                        &&& tables@[j].spec_layer() == family_layer(all_families()[j])
                        &&& tables@[j].entries().len() == 0
                        &&& tables@[j].spec_version() == 0
                    },
                total_entries(tables@) == 0,
            decreases 14 - i,
        {
            let family = families[i];
            let table = RuleFamilyTable::new(family, family.layer());
            let ghost before = tables@;
            tables.push(table);
            proof {
                assert(tables@.drop_last() =~= before);
                assert(tables@.last().entries().len() == 0);
            }
            i = i + 1;
        }
        let r = Bridge { tables, active_version: 0, staged_version: None, created_at: now_ms() };
        proof {
            assert forall|f: RuleFamilyId| #![trigger r.table(f)]
                r.table(f).entries().len() == 0 && r.table(f).spec_version() == 0 by {
                lemma_family_index(f);
            }
            r.lemma_tables();
        }
        r
    }

    /// Versions can still grow: the bridge's and every table's are below the maximum.
    pub open spec fn can_grow(&self) -> bool {
        &&& self.spec_version() < u64::MAX
        &&& forall|f: RuleFamilyId| #[trigger] self.table(f).spec_version() < u64::MAX
    }

    proof fn lemma_can_grow_at(&self, i: int)
        requires
            self.wf(),
            self.can_grow(),
            0 <= i < 14,
        ensures
            self.tables@[i].spec_version() < u64::MAX,
    {
        lemma_family_at(i);
        assert(self.table(family_at(i)) == self.tables@[i]);
    }

    /// A well-formed bridge's tables, in family order, are the tables of the families:
    /// each well-formed, of its family and on its family's layer.
    pub proof fn lemma_tables(&self)
        requires
            self.wf(),
        ensures
            self.tables_view().len() == 14,
            forall|f: RuleFamilyId| #[trigger] self.tables_view()[family_index(f)] == self.table(f),
            forall|i: int| 0 <= i < 14 ==> #[trigger] self.tables_view()[i] == self.table(family_at(i)),
            forall|f: RuleFamilyId|
                #![trigger self.table(f)]
                self.table(f).wf() && self.table(f).spec_family() == f && self.table(f).spec_layer() == family_layer(f),
    {
        assert forall|f: RuleFamilyId| #![trigger self.table(f)]
            self.table(f).wf() && self.table(f).spec_family() == f && self.table(f).spec_layer() == family_layer(f) by {
            lemma_family_index(f);
        }
        assert forall|i: int| 0 <= i < 14 implies #[trigger] self.tables_view()[i] == self.table(family_at(i)) by {
            lemma_family_at(i);
        }
    }

    /// The current global version.
    pub fn version(&self) -> (r: u64)
        ensures
            r == self.spec_version(),
    {
        self.active_version
    }

    /// The staged version, if any.
    pub fn staged_version(&self) -> (r: Option<u64>)
        ensures
            r == self.spec_staged(),
    {
        self.staged_version
    }

    /// The creation time.
    pub fn created_at(&self) -> (r: u64)
        ensures
            r == self.spec_created_at(),
    {
        self.created_at
    }

    /// The number of tables: one per family.
    pub fn table_count(&self) -> (r: usize)
        requires
            self.wf(),
        ensures
            r == 14,
    {
        self.tables.len()
    }

    /// The families of the tables, in family order.
    pub fn family_ids(&self) -> (r: Vec<RuleFamilyId>)
        ensures
            r@ == all_families(),
    {
        RuleFamilyId::all()
    }

    /// The table of a family.
    pub fn get_table(&self, family_id: &RuleFamilyId) -> (r: Option<&RuleFamilyTable>)
        requires
            self.wf(),
        ensures
            r is Some,
            *r->0 == self.table(*family_id),
    {
        let k = family_position(family_id);
        Some(&self.tables[k])
    }

    /// The tables of the families of a layer, in family order.
    pub fn get_tables_by_layer(&self, layer_id: &LayerId) -> (r: Vec<(RuleFamilyId, &RuleFamilyTable)>)
        requires
            self.wf(),
        ensures
            r@.map_values(|p: (RuleFamilyId, &RuleFamilyTable)| p.0) == all_families().filter(
                |f: RuleFamilyId| family_layer(f) == *layer_id,
            ),
            forall|i: int| 0 <= i < r@.len() ==> *(#[trigger] r@[i]).1 == self.table(r@[i].0),
    {
        let families = RuleFamilyId::all();
        let mut out: Vec<(RuleFamilyId, &RuleFamilyTable)> = Vec::new();
        let mut i: usize = 0;
        let ghost pred = |f: RuleFamilyId| family_layer(f) == *layer_id;
        while i < 14
            invariant
                families@ == all_families(),
                self.wf(),
                i <= 14,
                pred == (|f: RuleFamilyId| family_layer(f) == *layer_id),
                out@.map_values(|p: (RuleFamilyId, &RuleFamilyTable)| p.0) == all_families().take(i as int).filter(pred),
                forall|j: int| 0 <= j < out@.len() ==> *(#[trigger] out@[j]).1 == self.table(out@[j].0),
            decreases 14 - i,
        {
            let family = families[i];
            proof {
                lemma_family_index(family);
                reveal(Seq::filter);
                assert(all_families().take(i + 1).drop_last() =~= all_families().take(i as int));
            }
            let ghost before = out@;
            if family.layer() == *layer_id {
                out.push((family, &self.tables[i]));
                proof {
                    assert(out@.map_values(|p: (RuleFamilyId, &RuleFamilyTable)| p.0) =~= before.map_values(|p: (RuleFamilyId, &RuleFamilyTable)| p.0).push(family));
                }
            } else {
                proof {
                    assert(out@ == before);
                }
            }
            i = i + 1;
        }
        proof {
            assert(all_families().take(14) =~= all_families());
        }
        out
    }

    /// Routes a rule to its family's table; the bridge version grows when the table
    /// accepts it.
    pub fn add_rule(&mut self, rule: Arc<RuleInstance>) -> (r: Result<(), String>)
        requires
            old(self).wf(),
            old(self).can_grow(),
            old(self).rule_total() < usize::MAX,
        ensures
            final(self).wf(),
            r is Err <==> old(self).table((*rule).spec_family()).add_error(rule) is Some,
            r matches Err(e) ==> e@ == old(self).table((*rule).spec_family()).add_error(rule)->0 && final(self).same_state(old(self)),
            r is Err ==> forall|g: RuleFamilyId| #[trigger] final(self).table(g) == old(self).table(g),
            r is Ok <==> !ids(old(self).table((*rule).spec_family()).entries()).contains(rid(rule)),
            r is Ok ==> find_in_tables(final(self).tables_view(), rid(rule)) is Some,
            r is Ok ==> {
                let f = (*rule).spec_family();
                &&& final(self).table(f).entries() == old(self).table(f).entries().push(rule)
                &&& final(self).table(f).indexed_after(&old(self).table(f), seq![rule])
                &&& final(self).table(f).spec_version() == old(self).table(f).spec_version() + 1
                &&& final(self).others_unchanged(old(self), f)
                &&& final(self).spec_version() == old(self).spec_version() + 1
                &&& final(self).spec_staged() == old(self).spec_staged()
            },
    {
        let ghost added = rule;
        let inner: &RuleInstance = &*rule;
        let family = inner.family_id();
        let k = family_position(&family);
        let ghost old_tables = self.tables@;
        proof {
            old(self).lemma_tables();
            lemma_family_index(family);
            lemma_total_bound(old_tables, k as int);
            self.lemma_can_grow_at(k as int);
        }
        let mut table = self.tables.remove(k);
        let result = table.add_rule(rule);
        self.tables.insert(k, table);
        proof {
            assert(self.tables@ =~= old_tables.update(k as int, table));
            lemma_total_update(old_tables, k as int, table);
        }
        match result {
            Ok(()) => {
                self.active_version = self.active_version + 1;
                proof {
                    assert forall|g: RuleFamilyId| g != family implies #[trigger] self.table(g) == old(self).table(g) by {
                        lemma_family_index(g);
                    }
                    lemma_bridge_add_then_find(*old(self), *self, added);
                }
                Ok(())
            },
            Err(e) => {
                proof {
                    assert(self.tables@ =~= old_tables);
                }
                Err(e)
            },
        }
    }

    /// The batch fails at the table of the family at position `i`.
    pub open spec fn batch_fails_at(&self, rules: Seq<Arc<RuleInstance>>, i: int) -> bool {
        self.table(family_at(i)).batch_error(group_for(rules, family_at(i))) is Some
    }

    /// The first family position at which the batch fails, or -1.
    pub open spec fn first_failing(&self, rules: Seq<Arc<RuleInstance>>) -> int {
        if exists|k: int|
            0 <= k < 14 && self.batch_fails_at(rules, k) && forall|j: int| 0 <= j < k ==> !#[trigger] self.batch_fails_at(rules, j) {
            choose|k: int|
                0 <= k < 14 && self.batch_fails_at(rules, k) && forall|j: int| 0 <= j < k ==> !#[trigger] self.batch_fails_at(rules, j)
        } else {
            -1
        }
    }

    /// Adds rules grouped by family, family by family in family order, all or nothing:
    /// when some table would refuse its group, nothing changes and the error of the first
    /// such table (in family order) is answered; otherwise every table takes its group
    /// and the bridge version rises once. An empty list changes nothing.
    #[verifier::rlimit(40)]
    pub fn add_rules_batch(&mut self, rules: Vec<Arc<RuleInstance>>) -> (r: Result<(), String>)
        requires
            old(self).wf(),
            old(self).can_grow(),
            old(self).rule_total() + rules@.len() <= usize::MAX,
        ensures
            final(self).wf(),
            rules@.len() == 0 ==> r is Ok && final(self).same_state(old(self)),
            rules@.len() > 0 ==> {
                let k = old(self).first_failing(rules@);
                &&& r is Err <==> k >= 0
                &&& r matches Err(e) ==> e@ == old(self).table(family_at(k)).batch_error(group_for(rules@, family_at(k)))->0
                &&& r is Err ==> final(self).same_state(old(self)) && forall|g: RuleFamilyId| #[trigger] final(self).table(g) == old(self).table(g)
                &&& r is Ok ==> {
                    &&& forall|k: int| 0 <= k < rules@.len() ==> find_in_tables(final(self).tables_view(), rid(#[trigger] rules@[k])) is Some
                    &&& forall|i: int|
                        0 <= i < 14 ==> batch_applied(#[trigger] final(self).table(family_at(i)), old(self).table(family_at(i)), group_for(rules@, family_at(i)))
                    &&& final(self).spec_version() == old(self).spec_version() + 1
                    &&& final(self).spec_staged() == old(self).spec_staged()
                }
            },
    {
        if rules.len() == 0 {
            return Ok(());
        }
        let families = RuleFamilyId::all();
        // Every group is checked first, so that a refused batch changes nothing.
        let mut c: usize = 0;
        while c < 14
            invariant
                families@ == all_families(),
                c <= 14,
                self.wf(),
                *self == *old(self),
                forall|j: int| 0 <= j < c ==> !#[trigger] old(self).batch_fails_at(rules@, j),
            decreases 14 - c,
        {
            let family = families[c];
            proof {
                lemma_family_at(c as int);
            }
            let group = collect_family(&rules, family);
            match self.tables[c].check_batch(&group) {
                Some(e) => {
                    proof {
                        old(self).lemma_first_failing(rules@, c as int);
                        assert forall|g: RuleFamilyId| #[trigger] self.table(g) == old(self).table(g) by {}
                    }
                    return Err(e);
                },
                None => {},
            }
            c = c + 1;
        }
        let ghost old_tables = self.tables@;
        proof {
            lemma_groups_partition(rules@);
        }
        let mut i: usize = 0;
        while i < 14
            invariant
                families@ == all_families(),
                i <= 14,
                self.tables@.len() == 14,
                old_tables == old(self).tables@,
                old(self).wf(),
                old(self).can_grow(),
                old(self).rule_total() + rules@.len() <= usize::MAX,
                groups_len(rules@, 14) == rules@.len(),
                forall|j: int| 0 <= j < 14 ==> !#[trigger] old(self).batch_fails_at(rules@, j),
                forall|j: int|
                    0 <= j < i ==> batch_applied(#[trigger] self.tables@[j], old_tables[j], group_for(rules@, family_at(j))),
                forall|j: int|
                    0 <= j < i ==> (#[trigger] self.tables@[j]).wf() && self.tables@[j].spec_family() == old_tables[j].spec_family() && self.tables@[j].spec_layer() == old_tables[j].spec_layer(),
                forall|j: int| i <= j < 14 ==> #[trigger] self.tables@[j] == old_tables[j],
                total_entries(self.tables@) == total_entries(old_tables) + groups_len(rules@, i as nat),
                self.active_version == old(self).active_version,
                self.staged_version == old(self).staged_version,
                self.created_at == old(self).created_at,
            decreases 14 - i,
        {
            let family = families[i];
            proof {
                lemma_family_at(i as int);
                lemma_groups_mono(rules@, (i + 1) as nat);
                lemma_total_bound(self.tables@, i as int);
                lemma_group_family(rules@, family);
                assert(old_tables[i as int].wf());
                old(self).lemma_can_grow_at(i as int);
                assert(!old(self).batch_fails_at(rules@, i as int));
                assert(old(self).table(family_at(i as int)) == old_tables[i as int]);
            }
            let group = collect_family(&rules, family);
            let ghost before = self.tables@;
            let mut table = self.tables.remove(i);
            let res = table.add_rules_batch(group);
            self.tables.insert(i, table);
            proof {
                assert(self.tables@ =~= before.update(i as int, table));
                lemma_total_update(before, i as int, table);
                assert(res is Ok);
                lemma_batch_step(table, old_tables[i as int], group_for(rules@, family_at(i as int)));
            }
            i = i + 1;
        }
        self.active_version = self.active_version + 1;
        proof {
            self.lemma_batch_ok_state(old(self), rules@);
            assert forall|k: int| 0 <= k < rules@.len() implies find_in_tables(self.tables_view(), rid(#[trigger] rules@[k])) is Some by {
                lemma_bridge_batch_then_find(*old(self), *self, rules@, k);
            }
        }
        Ok(())
    }

    proof fn lemma_first_failing(&self, rules: Seq<Arc<RuleInstance>>, k: int)
        requires
            0 <= k < 14,
            self.batch_fails_at(rules, k),
            forall|j: int| 0 <= j < k ==> !#[trigger] self.batch_fails_at(rules, j),
        ensures
            self.first_failing(rules) == k,
    {
        let w = self.first_failing(rules);
        assert(0 <= k < 14 && self.batch_fails_at(rules, k) && forall|j: int| 0 <= j < k ==> !#[trigger] self.batch_fails_at(rules, j));
        assert(0 <= w < 14 && self.batch_fails_at(rules, w) && forall|j: int| 0 <= j < w ==> !#[trigger] self.batch_fails_at(rules, j));
        if w < k {
            assert(!self.batch_fails_at(rules, w));
        }
        if k < w {
            assert(!self.batch_fails_at(rules, k));
        }
    }

    proof fn lemma_batch_ok_state(&self, old_self: &Self, rules: Seq<Arc<RuleInstance>>)
        requires
            old_self.wf(),
            self.tables@.len() == 14,
            forall|j: int| 0 <= j < 14 ==> !#[trigger] old_self.batch_fails_at(rules, j),
            forall|j: int|
                0 <= j < 14 ==> batch_applied(#[trigger] self.tables@[j], old_self.tables@[j], group_for(rules, family_at(j))),
            forall|j: int|
                0 <= j < 14 ==> (#[trigger] self.tables@[j]).wf() && self.tables@[j].spec_family() == old_self.tables@[j].spec_family() && self.tables@[j].spec_layer() == old_self.tables@[j].spec_layer(),
            total_entries(self.tables@) <= usize::MAX,
        ensures
            old_self.first_failing(rules) == -1,
            self.wf(),
            forall|i: int|
                0 <= i < 14 ==> batch_applied(#[trigger] self.table(family_at(i)), old_self.table(family_at(i)), group_for(rules, family_at(i))),
    {
        assert(!(exists|k: int|
            0 <= k < 14 && old_self.batch_fails_at(rules, k) && forall|j: int| 0 <= j < k ==> !#[trigger] old_self.batch_fails_at(rules, j)));
        assert forall|j: int| 0 <= j < 14 implies {
            &&& (#[trigger] self.tables@[j]).wf()
            &&& self.tables@[j].spec_family() == all_families()[j]
            &&& self.tables@[j].spec_layer() == family_layer(all_families()[j])
        } by {
            assert(old_self.tables@[j].wf());
        }
        assert forall|q: int| 0 <= q < 14 implies batch_applied(#[trigger] self.table(family_at(q)), old_self.table(family_at(q)), group_for(rules, family_at(q))) by {
            lemma_family_at(q);
        }
    }

    /// Removes the first rule with the id from the family's table; the bridge version
    /// grows when a rule was removed.
    pub fn remove_rule(&mut self, family_id: &RuleFamilyId, rule_id: &str) -> (r: Result<bool, String>)
        requires
            old(self).wf(),
            old(self).can_grow(),
        ensures
            final(self).wf(),
            r == Ok::<bool, String>(ids(old(self).table(*family_id).entries()).contains(rule_id@)),
            ids(old(self).table(*family_id).entries()).no_duplicates() ==> !ids(final(self).table(*family_id).entries()).contains(rule_id@),
            !ids(old(self).table(*family_id).entries()).contains(rule_id@) ==> final(self).same_state(old(self))
                && forall|g: RuleFamilyId| #[trigger] final(self).table(g) == old(self).table(g),
            ids(old(self).table(*family_id).entries()).contains(rule_id@) ==> {
                let f = *family_id;
                &&& final(self).table(f).entries() == remove_first_id(old(self).table(f).entries(), rule_id@)
                &&& final(self).table(f).agent_index() == bucket_remove_all(old(self).table(f).agent_index(), rule_id@)
                &&& final(self).table(f).secondary_index() == bucket_remove_all(old(self).table(f).secondary_index(), rule_id@)
                &&& final(self).table(f).global_rules() == remove_first_id(old(self).table(f).global_rules(), rule_id@)
                &&& final(self).table(f).spec_version() == old(self).table(f).spec_version() + 1
                &&& final(self).others_unchanged(old(self), f)
                &&& final(self).spec_version() == old(self).spec_version() + 1
                &&& final(self).spec_staged() == old(self).spec_staged()
            },
    {
        let k = family_position(family_id);
        let ghost old_tables = self.tables@;
        proof {
            lemma_family_index(*family_id);
            assert(old_tables[k as int].wf());
            self.lemma_can_grow_at(k as int);
        }
        let mut table = self.tables.remove(k);
        let result = table.remove_rule(rule_id);
        self.tables.insert(k, table);
        proof {
            assert(self.tables@ =~= old_tables.update(k as int, table));
            lemma_total_update(old_tables, k as int, table);
            table.lemma_counters();
            old_tables[k as int].lemma_counters();
            crate::bridge::rule_seq::lemma_remove_len(old_tables[k as int].entries(), rule_id@);
        }
        let removed = match result {
            Ok(b) => b,
            Err(_) => false,
        };
        if removed {
            self.active_version = self.active_version + 1;
            proof {
                assert forall|g: RuleFamilyId| g != *family_id implies #[trigger] self.table(g) == old(self).table(g) by {
                    lemma_family_index(g);
                }
                if ids(old(self).table(*family_id).entries()).no_duplicates() {
                    crate::bridge::table::lemma_remove_then_absent(old(self).table(*family_id), self.table(*family_id), rule_id@, rule_id@);
                    crate::bridge::table::lemma_find_iff_contains(self.table(*family_id).entries(), rule_id@);
                }
            }
        } else {
            proof {
                assert(self.tables@ =~= old_tables);
            }
        }
        result
    }

    /// Removes every rule of the family's table and bumps the bridge version.
    pub fn clear_table(&mut self, family_id: &RuleFamilyId) -> (r: Result<(), String>)
        requires
            old(self).wf(),
            old(self).can_grow(),
        ensures
            final(self).wf(),
            r is Ok,
            final(self).table(*family_id).entries().len() == 0,
            final(self).table(*family_id).agent_index().len() == 0,
            final(self).table(*family_id).secondary_index().len() == 0,
            final(self).table(*family_id).global_rules().len() == 0,
            final(self).table(*family_id).spec_version() == old(self).table(*family_id).spec_version() + 1,
            final(self).others_unchanged(old(self), *family_id),
            final(self).spec_version() == old(self).spec_version() + 1,
            final(self).spec_staged() == old(self).spec_staged(),
    {
        let k = family_position(family_id);
        let ghost old_tables = self.tables@;
        proof {
            lemma_family_index(*family_id);
            assert(old_tables[k as int].wf());
            self.lemma_can_grow_at(k as int);
        }
        let mut table = self.tables.remove(k);
        table.clear();
        self.tables.insert(k, table);
        proof {
            assert(self.tables@ =~= old_tables.update(k as int, table));
            lemma_total_update(old_tables, k as int, table);
            assert forall|g: RuleFamilyId| g != *family_id implies #[trigger] self.table(g) == old(self).table(g) by {
                lemma_family_index(g);
            }
        }
        self.active_version = self.active_version + 1;
        Ok(())
    }

    /// Removes every rule of every table and bumps the bridge version once.
    pub fn clear_all(&mut self)
        requires
            old(self).wf(),
            old(self).can_grow(),
        ensures
            final(self).wf(),
            forall|f: RuleFamilyId|
                #![trigger final(self).table(f)]
                final(self).table(f).entries().len() == 0 && final(self).table(f).global_rules().len() == 0
                    && final(self).table(f).agent_index().len() == 0
                    && final(self).table(f).secondary_index().len() == 0
                    && final(self).table(f).spec_version() == old(self).table(f).spec_version() + 1,
            final(self).spec_version() == old(self).spec_version() + 1,
            final(self).spec_staged() == old(self).spec_staged(),
    {
        let ghost old_tables = self.tables@;
        let mut i: usize = 0;
        while i < 14
            invariant
                i <= 14,
                self.tables@.len() == 14,
                old_tables == old(self).tables@,
                old(self).wf(),
                old(self).can_grow(),
                forall|j: int| 0 <= j < i ==> {
                    &&& (#[trigger] self.tables@[j]).wf()
                    &&& self.tables@[j].same_identity(&old_tables[j])
                    &&& self.tables@[j].entries().len() == 0
                    &&& self.tables@[j].global_rules().len() == 0
                    &&& self.tables@[j].agent_index().len() == 0
                    &&& self.tables@[j].secondary_index().len() == 0
                    &&& self.tables@[j].spec_version() == old_tables[j].spec_version() + 1
                },
                forall|j: int| i <= j < 14 ==> #[trigger] self.tables@[j] == old_tables[j],
                total_entries(self.tables@) <= total_entries(old_tables),
                self.active_version == old(self).active_version,
                self.staged_version == old(self).staged_version,
            decreases 14 - i,
        {
            proof {
                assert(old_tables[i as int].wf());
                old(self).lemma_can_grow_at(i as int);
            }
            let ghost before = self.tables@;
            let mut table = self.tables.remove(i);
            table.clear();
            self.tables.insert(i, table);
            proof {
                assert(self.tables@ =~= before.update(i as int, table));
                lemma_total_update(before, i as int, table);
            }
            i = i + 1;
        }
        self.active_version = self.active_version + 1;
        proof {
            assert forall|j: int| 0 <= j < 14 implies {
                &&& (#[trigger] self.tables@[j]).wf()
                &&& self.tables@[j].spec_family() == all_families()[j]
                &&& self.tables@[j].spec_layer() == family_layer(all_families()[j])
            } by {
                assert(old_tables[j].wf());
            }
            assert forall|f: RuleFamilyId| #![trigger self.table(f)]
                self.table(f).entries().len() == 0 && self.table(f).global_rules().len() == 0
                    && self.table(f).agent_index().len() == 0
                    && self.table(f).secondary_index().len() == 0
                    && self.table(f).spec_version() == old(self).table(f).spec_version() + 1 by {
                lemma_family_index(f);
            }
        }
    }

    /// Rules of the family's table for an agent, plus its global rules, by priority.
    pub fn query_by_agent(&self, family_id: &RuleFamilyId, agent_id: &str) -> (r: Result<Vec<Arc<RuleInstance>>, String>)
        requires
            self.wf(),
        ensures
            r matches Ok(v) && v@ == sort_by_priority(
                rules_for_key(self.table(*family_id).agent_index(), agent_id@) + self.table(*family_id).global_rules(),
            ),
    {
        let k = family_position(family_id);
        Ok(self.tables[k].query_by_agent(agent_id))
    }

    /// The global rules of the family's table, by priority.
    pub fn query_global(&self, family_id: &RuleFamilyId) -> (r: Result<Vec<Arc<RuleInstance>>, String>)
        requires
            self.wf(),
        ensures
            r matches Ok(v) && v@ == sort_by_priority(self.table(*family_id).global_rules()),
    {
        let k = family_position(family_id);
        Ok(self.tables[k].query_globals())
    }

    /// The first rule with the id, searching the tables in family order.
    pub fn find_rule(&self, rule_id: &str) -> (r: Option<Arc<RuleInstance>>)
        ensures
            r == find_in_tables(self.tables_view(), rule_id@),
    {
        let n = self.tables.len();
        let mut i: usize = 0;
        assert(self.tables@.skip(0) =~= self.tables@);
        while i < n
            invariant
                n == self.tables@.len(),
                i <= n,
                find_in_tables(self.tables@, rule_id@) == find_in_tables(self.tables@.skip(i as int), rule_id@),
            decreases n - i,
        {
            let found = self.tables[i].find_rule(rule_id);
            proof {
                let t = self.tables@.skip(i as int);
                assert(t[0] == self.tables@[i as int]);
                assert(t.drop_first() =~= self.tables@.skip(i + 1));
            }
            match found {
                Some(r) => {
                    return Some(r);
                },
                None => {},
            }
            i = i + 1;
        }
        assert(self.tables@.skip(n as int) =~= Seq::<RuleFamilyTable>::empty());
        None
    }

    /// Bridge statistics: version, table count, non-empty tables and rule totals.
    pub fn stats(&self) -> (r: BridgeStats)
        requires
            self.wf(),
        ensures
            r.version == self.spec_version(),
            r.total_tables == 14,
            r.tables_with_rules == nonempty_tables(self.tables_view()),
            r.total_rules == total_entries(self.tables_view()),
            r.total_global_rules == total_global(self.tables_view()),
            r.total_scoped_rules + r.total_global_rules == r.total_rules,
            r.created_at == self.spec_created_at(),
    {
        let mut total_rules: usize = 0;
        let mut total_global_rules: usize = 0;
        let mut total_scoped_rules: usize = 0;
        let mut tables_with_rules: usize = 0;
        let mut i: usize = 0;
        while i < 14
            invariant
                self.wf(),
                i <= 14,
                total_rules == total_entries(self.tables@.take(i as int)),
                total_global_rules == total_global(self.tables@.take(i as int)),
                total_scoped_rules + total_global_rules == total_rules,
                tables_with_rules == nonempty_tables(self.tables@.take(i as int)),
                tables_with_rules <= i,
                total_entries(self.tables@.take(i as int)) <= total_entries(self.tables@),
            decreases 14 - i,
        {
            let meta = self.tables[i].metadata();
            proof {
                let t = self.tables@.take(i + 1);
                assert(t.drop_last() =~= self.tables@.take(i as int));
                assert(t.last() == self.tables@[i as int]);
                assert(self.tables@[i as int].wf());
                self.tables@[i as int].lemma_counters();
                lemma_total_prefix(self.tables@, i + 1);
            }
            total_rules = total_rules + meta.rule_count;
            total_global_rules = total_global_rules + meta.global_count;
            total_scoped_rules = total_scoped_rules + meta.scoped_count;
            if meta.rule_count > 0 {
                tables_with_rules = tables_with_rules + 1;
            }
            i = i + 1;
        }
        proof {
            assert(self.tables@.take(14) =~= self.tables@);
        }
        BridgeStats {
            version: self.active_version,
            total_tables: self.tables.len(),
            tables_with_rules,
            total_rules,
            total_global_rules,
            total_scoped_rules,
            created_at: self.created_at,
        }
    }

    /// Per-table statistics, in family order (which is also layer order).
    pub fn table_stats(&self) -> (r: Vec<TableStats>)
        requires
            self.wf(),
        ensures
            r@.len() == 14,
            forall|i: int|
                0 <= i < 14 ==> {
                    let t = self.table(family_at(i));
                    &&& (#[trigger] r@[i]).family_id == family_at(i)
                    &&& r@[i].layer_id == family_layer(family_at(i))
                    &&& r@[i].version == t.spec_version()
                    &&& r@[i].rule_count == t.meta().rule_count
                    &&& r@[i].global_count == t.meta().global_count
                    &&& r@[i].scoped_count == t.meta().scoped_count
                },
    {
        let mut out: Vec<TableStats> = Vec::new();
        let mut i: usize = 0;
        while i < 14
            invariant
                self.wf(),
                i <= 14,
                out@.len() == i,
                forall|j: int|
                    0 <= j < i ==> {
                        let t = self.tables@[j];
                        &&& (#[trigger] out@[j]).family_id == t.spec_family()
                        &&& out@[j].layer_id == t.spec_layer()
                        &&& out@[j].version == t.spec_version()
                        &&& out@[j].rule_count == t.meta().rule_count
                        &&& out@[j].global_count == t.meta().global_count
                        &&& out@[j].scoped_count == t.meta().scoped_count
                    },
            decreases 14 - i,
        {
            let t = &self.tables[i];
            let meta = t.metadata();
            out.push(TableStats {
                family_id: *t.family_id(),
                layer_id: *t.layer_id(),
                version: t.version(),
                rule_count: meta.rule_count,
                global_count: meta.global_count,
                scoped_count: meta.scoped_count,
            });
            i = i + 1;
        }
        proof {
            assert forall|i: int| 0 <= i < 14 implies {
                let t = self.table(family_at(i));
                &&& (#[trigger] out@[i]).family_id == family_at(i)
                &&& out@[i].layer_id == family_layer(family_at(i))
                &&& out@[i].version == t.spec_version()
                &&& out@[i].rule_count == t.meta().rule_count
                &&& out@[i].global_count == t.meta().global_count
                &&& out@[i].scoped_count == t.meta().scoped_count
            } by {
                lemma_family_at(i);
            }
        }
        out
    }

    /// Stages a version for a hot reload.
    pub fn set_staged_version(&mut self, version: u64)
        ensures
            final(self).spec_staged() == Some(version),
            final(self).tables_view() == old(self).tables_view(),
            final(self).spec_version() == old(self).spec_version(),
            final(self).spec_created_at() == old(self).spec_created_at(),
            old(self).wf() ==> final(self).wf(),
    {
        self.staged_version = Some(version);
    }

    /// Drops the staged version.
    pub fn clear_staged_version(&mut self)
        ensures
            final(self).spec_staged() is None,
            final(self).tables_view() == old(self).tables_view(),
            final(self).spec_version() == old(self).spec_version(),
            final(self).spec_created_at() == old(self).spec_created_at(),
            old(self).wf() ==> final(self).wf(),
    {
        self.staged_version = None;
    }

    /// Makes the staged version active and drops it; fails when nothing is staged.
    pub fn promote_staged(&mut self) -> (r: Result<(), String>)
        ensures
            r is Ok <==> old(self).spec_staged() is Some,
            r matches Err(e) ==> e@ == "No staged version to promote"@ && final(self).same_state(old(self)),
            r is Ok ==> final(self).spec_version() == old(self).spec_staged()->0 && final(self).spec_staged() is None
                && final(self).tables_view() == old(self).tables_view(),
            old(self).wf() ==> final(self).wf(),
    {
        match self.staged_version {
            Some(v) => {
                self.active_version = v;
                self.clear_staged_version();
                Ok(())
            },
            None => Err(owned("No staged version to promote")),
        }
    }
}


proof fn lemma_find_in_tables_some(ts: Seq<RuleFamilyTable>, id: Seq<char>, i: int)
    requires
        0 <= i < ts.len(),
        ids(ts[i].entries()).contains(id),
    ensures
        find_in_tables(ts, id) is Some,
    decreases ts.len(),
{
    if i == 0 {
        crate::bridge::table::lemma_find_iff_contains(ts[0].entries(), id);
    } else if find_first(ts[0].entries(), id) is None {
        assert(ts.drop_first()[i - 1] == ts[i]);
        lemma_find_in_tables_some(ts.drop_first(), id, i - 1);
    }
}

/// After a rule is added to its family's table, a search of the bridge for its
/// identifier finds a rule with that identifier.
pub proof fn lemma_bridge_add_then_find(before: Bridge, after: Bridge, rule: Arc<RuleInstance>)
    requires
        after.wf(),
        after.table((*rule).spec_family()).entries() == before.table((*rule).spec_family()).entries().push(rule),
    ensures
        find_in_tables(after.tables_view(), rid(rule)) is Some,
{
    let f = (*rule).spec_family();
    after.lemma_tables();
    lemma_family_index(f);
    let e = after.table(f).entries();
    assert(ids(e)[e.len() - 1] == rid(rule));
    lemma_find_in_tables_some(after.tables_view(), rid(rule), family_index(f));
}
proof fn lemma_group_for_contains(rules: Seq<Arc<RuleInstance>>, k: int)
    requires
        0 <= k < rules.len(),
    ensures
        group_for(rules, (*rules[k]).spec_family()).contains(rules[k]),
    decreases rules.len(),
{
    let f = (*rules[k]).spec_family();
    let g = group_for(rules.drop_last(), f);
    if k == rules.len() - 1 {
        assert(g.push(rules.last())[g.len() as int] == rules[k]);
    } else {
        assert(rules.drop_last()[k] == rules[k]);
        lemma_group_for_contains(rules.drop_last(), k);
        let j = choose|j: int| 0 <= j < g.len() && g[j] == rules[k];
        if (*rules.last()).spec_family() == f {
            assert(g.push(rules.last())[j] == rules[k]);
        }
    }
}

/// After a batch is taken in, every table with its group, a search of the bridge for
/// the identifier of any rule of the batch finds a rule with that identifier.
pub proof fn lemma_bridge_batch_then_find(before: Bridge, after: Bridge, rules: Seq<Arc<RuleInstance>>, k: int)
    requires
        after.wf(),
        0 <= k < rules.len(),
        forall|i: int|
            0 <= i < 14 ==> batch_applied(#[trigger] after.table(family_at(i)), before.table(family_at(i)), group_for(rules, family_at(i))),
    ensures
        find_in_tables(after.tables_view(), rid(rules[k])) is Some,
{
    let r = rules[k];
    let f = (*r).spec_family();
    lemma_family_index(f);
    let i = family_index(f);
    lemma_group_for_contains(rules, k);
    let g = group_for(rules, f);
    let j = choose|j: int| 0 <= j < g.len() && g[j] == r;
    assert(family_at(i) == f);
    assert(g.len() > 0);
    assert(batch_applied(after.table(f), before.table(f), g));
    reveal(batch_applied);
    let b = before.table(f).entries();
    let e = after.table(f).entries();
    assert(e == b + g);
    assert(e[b.len() + j] == r);
    assert(ids(e)[b.len() + j] == rid(r));
    after.lemma_tables();
    lemma_find_in_tables_some(after.tables_view(), rid(r), i);
}
} // verus!

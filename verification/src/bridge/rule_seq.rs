//! Sequences of shared rules: priority ordering, de-duplication by id, and removal.
use vstd::prelude::*;
use std::sync::Arc;
use crate::bridge::rule_instance::RuleInstance;
use crate::text::str_eq;
pub(crate) use crate::shared::arc_share;

verus! {

/// The identifier of a shared rule.
pub open spec fn rid(r: Arc<RuleInstance>) -> Seq<char> {
    (*r).spec_rule_id()
}

/// The priority of a shared rule.
pub open spec fn prio(r: Arc<RuleInstance>) -> u32 {
    (*r).spec_priority()
}

/// The identifiers of a sequence of rules.
pub open spec fn ids(s: Seq<Arc<RuleInstance>>) -> Seq<Seq<char>> {
    s.map_values(|r: Arc<RuleInstance>| rid(r))
}

/// Inserts `x` after every leading rule whose priority is at least that of `x`.
pub open spec fn insert_by_priority(s: Seq<Arc<RuleInstance>>, x: Arc<RuleInstance>) -> Seq<
    Arc<RuleInstance>,
>
    decreases s.len(),
{
    if s.len() == 0 {
        seq![x]
    } else if prio(s[0]) >= prio(x) {
        seq![s[0]] + insert_by_priority(s.drop_first(), x)
    } else {
        seq![x] + s
    }
}

/// The rules ordered by priority, highest first; rules of equal priority keep their
/// relative order (a stable sort).
pub open spec fn sort_by_priority(s: Seq<Arc<RuleInstance>>) -> Seq<Arc<RuleInstance>>
    decreases s.len(),
{
    if s.len() == 0 {
        s
    } else {
        insert_by_priority(sort_by_priority(s.drop_last()), s.last())
    }
}

/// Priorities never increase along the sequence.
pub open spec fn priority_descending(s: Seq<Arc<RuleInstance>>) -> bool {
    forall|i: int, j: int| 0 <= i < j < s.len() ==> prio(#[trigger] s[i]) >= prio(#[trigger] s[j])
}

/// The first occurrence of each identifier, in order of first occurrence.
pub open spec fn dedup_by_id(s: Seq<Arc<RuleInstance>>) -> Seq<Arc<RuleInstance>>
    decreases s.len(),
{
    if s.len() == 0 {
        s
    } else {
        let d = dedup_by_id(s.drop_last());
        if ids(d).contains(rid(s.last())) {
            d
        } else {
            d.push(s.last())
        }
    }
}

/// The sequence without its first rule that has the identifier.
pub open spec fn remove_first_id(s: Seq<Arc<RuleInstance>>, id: Seq<char>) -> Seq<Arc<RuleInstance>>
    decreases s.len(),
{
    if s.len() == 0 {
        s
    } else if rid(s[0]) == id {
        s.drop_first()
    } else {
        seq![s[0]] + remove_first_id(s.drop_first(), id)
    }
}

/// The first rule with the identifier, if there is one.
pub open spec fn find_first(s: Seq<Arc<RuleInstance>>, id: Seq<char>) -> Option<Arc<RuleInstance>>
    decreases s.len(),
{
    if s.len() == 0 {
        None
    } else if rid(s[0]) == id {
        Some(s[0])
    } else {
        find_first(s.drop_first(), id)
    }
}

/// The identifier of a shared rule.
pub fn rule_ref_id(r: &Arc<RuleInstance>) -> (s: &str)
    ensures
        s@ == rid(*r),
{
    let inner: &RuleInstance = &**r;
    inner.rule_id()
}

/// The priority of a shared rule.
pub fn rule_ref_priority(r: &Arc<RuleInstance>) -> (p: u32)
    ensures
        p == prio(*r),
{
    let inner: &RuleInstance = &**r;
    inner.priority()
}

proof fn lemma_insert_at(s: Seq<Arc<RuleInstance>>, x: Arc<RuleInstance>, pos: int)
    requires
        0 <= pos <= s.len(),
        forall|j: int| 0 <= j < pos ==> prio(#[trigger] s[j]) >= prio(x),
        pos < s.len() ==> prio(s[pos]) < prio(x),
    ensures
        insert_by_priority(s, x) == s.insert(pos, x),
    decreases s.len(),
{
    if s.len() == 0 {
        assert(seq![x] =~= s.insert(pos, x));
    } else if pos == 0 {
        assert(seq![x] + s =~= s.insert(pos, x));
    } else {
        let t = s.drop_first();
        assert forall|j: int| 0 <= j < pos - 1 implies prio(#[trigger] t[j]) >= prio(x) by {
            assert(t[j] == s[j + 1]);
        }
        lemma_insert_at(t, x, pos - 1);
        assert(seq![s[0]] + t.insert(pos - 1, x) =~= s.insert(pos, x));
    }
}

/// Inserts one rule into a priority-ordered vector at its stable place.
fn insert_ordered(out: &mut Vec<Arc<RuleInstance>>, x: Arc<RuleInstance>)
    ensures
        final(out)@ == insert_by_priority(old(out)@, x),
{
    let p = rule_ref_priority(&x);
    let n = out.len();
    let mut pos: usize = 0;
    while pos < n && rule_ref_priority(&out[pos]) >= p
        invariant
            n == out@.len(),
            pos <= n,
            p == prio(x),
            forall|j: int| 0 <= j < pos ==> prio(#[trigger] out@[j]) >= prio(x),
        decreases n - pos,
    {
        pos = pos + 1;
    }
    proof {
        lemma_insert_at(out@, x, pos as int);
    }
    out.insert(pos, x);
}

/// The rules ordered by priority, highest first, keeping the order of equal priorities.
pub fn sort_by_priority_desc(v: &Vec<Arc<RuleInstance>>) -> (r: Vec<Arc<RuleInstance>>)
    ensures
        r@ == sort_by_priority(v@),
{
    let mut out: Vec<Arc<RuleInstance>> = Vec::new();
    let n = v.len();
    let mut i: usize = 0;
    while i < n
        invariant
            n == v@.len(),
            i <= n,
            out@ == sort_by_priority(v@.take(i as int)),
        decreases n - i,
    {
        let x = arc_share(&v[i]);
        proof {
            assert(v@.take(i + 1).drop_last() =~= v@.take(i as int));
        }
        insert_ordered(&mut out, x);
        i = i + 1;
    }
    assert(v@.take(n as int) =~= v@);
    out
}

/// Whether some rule of the vector has the identifier.
pub fn contains_id(v: &Vec<Arc<RuleInstance>>, id: &str) -> (r: bool)
    ensures
        r == ids(v@).contains(id@),
{
    let n = v.len();
    let mut i: usize = 0;
    while i < n
        invariant
            n == v@.len(),
            i <= n,
            forall|j: int| 0 <= j < i ==> rid(#[trigger] v@[j]) != id@,
        decreases n - i,
    {
        if str_eq(rule_ref_id(&v[i]), id) {
            assert(ids(v@)[i as int] == id@);
            return true;
        }
        i = i + 1;
    }
    assert(!ids(v@).contains(id@)) by {
        if ids(v@).contains(id@) {
            let k = choose|k: int| 0 <= k < ids(v@).len() && ids(v@)[k] == id@;
            assert(rid(v@[k]) == id@);
        }
    }
    false
}

/// Keeps the first rule of each identifier, in order.
pub fn dedup_rules(v: &Vec<Arc<RuleInstance>>) -> (r: Vec<Arc<RuleInstance>>)
    ensures
        r@ == dedup_by_id(v@),
{
    let mut out: Vec<Arc<RuleInstance>> = Vec::new();
    let n = v.len();
    let mut i: usize = 0;
    while i < n
        invariant
            n == v@.len(),
            i <= n,
            out@ == dedup_by_id(v@.take(i as int)),
        decreases n - i,
    {
        proof {
            assert(v@.take(i + 1).drop_last() =~= v@.take(i as int));
            assert(v@.take(i + 1).last() == v@[i as int]);
        }
        if !contains_id(&out, rule_ref_id(&v[i])) {
            out.push(arc_share(&v[i]));
        }
        i = i + 1;
    }
    assert(v@.take(n as int) =~= v@);
    out
}

/// Appends shared handles of every rule of `src` to `dst`.
pub fn extend_shared(dst: &mut Vec<Arc<RuleInstance>>, src: &Vec<Arc<RuleInstance>>)
    ensures
        final(dst)@ == old(dst)@ + src@,
{
    let n = src.len();
    let mut i: usize = 0;
    while i < n
        invariant
            n == src@.len(),
            i <= n,
            dst@ == old(dst)@ + src@.take(i as int),
        decreases n - i,
    {
        dst.push(arc_share(&src[i]));
        proof {
            assert(old(dst)@ + src@.take(i + 1) =~= (old(dst)@ + src@.take(i as int)).push(src@[i as int]));
        }
        i = i + 1;
    }
    assert(src@.take(n as int) =~= src@);
}

/// The position of the first rule with the identifier, if any.
pub fn position_of_id(v: &Vec<Arc<RuleInstance>>, id: &str) -> (r: Option<usize>)
    ensures
        match r {
            Some(k) => k < v@.len() && rid(v@[k as int]) == id@ && forall|j: int|
                0 <= j < k ==> rid(#[trigger] v@[j]) != id@,
            None => !ids(v@).contains(id@),
        },
{
    let n = v.len();
    let mut i: usize = 0;
    while i < n
        invariant
            n == v@.len(),
            i <= n,
            forall|j: int| 0 <= j < i ==> rid(#[trigger] v@[j]) != id@,
        decreases n - i,
    {
        if str_eq(rule_ref_id(&v[i]), id) {
            return Some(i);
        }
        i = i + 1;
    }
    assert(!ids(v@).contains(id@)) by {
        if ids(v@).contains(id@) {
            let k = choose|k: int| 0 <= k < ids(v@).len() && ids(v@)[k] == id@;
            assert(rid(v@[k]) == id@);
        }
    }
    None
}

/// Removing the first rule with an identifier removes the rule at its first position.
pub proof fn lemma_remove_first_at(s: Seq<Arc<RuleInstance>>, id: Seq<char>, k: int)
    requires
        0 <= k < s.len(),
        rid(s[k]) == id,
        forall|j: int| 0 <= j < k ==> rid(#[trigger] s[j]) != id,
    ensures
        remove_first_id(s, id) == s.remove(k),
        find_first(s, id) == Some(s[k]),
    decreases s.len(),
{
    if k == 0 {
        assert(s.drop_first() =~= s.remove(0));
    } else {
        let t = s.drop_first();
        assert forall|j: int| 0 <= j < k - 1 implies rid(#[trigger] t[j]) != id by {
            assert(t[j] == s[j + 1]);
        }
        lemma_remove_first_at(t, id, k - 1);
        assert(seq![s[0]] + t.remove(k - 1) =~= s.remove(k));
    }
}

/// When no rule has the identifier, nothing is removed and nothing is found.
pub proof fn lemma_remove_first_absent(s: Seq<Arc<RuleInstance>>, id: Seq<char>)
    requires
        !ids(s).contains(id),
    ensures
        remove_first_id(s, id) == s,
        find_first(s, id) is None,
    decreases s.len(),
{
    if s.len() > 0 {
        let t = s.drop_first();
        assert(ids(s)[0] == rid(s[0]));
        assert(!ids(t).contains(id)) by {
            if ids(t).contains(id) {
                let k = choose|k: int| 0 <= k < ids(t).len() && ids(t)[k] == id;
                assert(ids(s)[k + 1] == id);
            }
        }
        lemma_remove_first_absent(t, id);
        assert(seq![s[0]] + t =~= s);
    }
}

/// Removing the first rule with an identifier shortens the sequence by one when the
/// identifier occurs and keeps it otherwise.
pub proof fn lemma_remove_len(s: Seq<Arc<RuleInstance>>, id: Seq<char>)
    ensures
        remove_first_id(s, id).len() == if ids(s).contains(id) {
            s.len() - 1
        } else {
            s.len() as int
        },
    decreases s.len(),
{
    if s.len() > 0 {
        let t = s.drop_first();
        lemma_remove_len(t, id);
        assert(ids(s)[0] == rid(s[0]));
        if ids(t).contains(id) {
            let k = choose|k: int| 0 <= k < ids(t).len() && ids(t)[k] == id;
            assert(ids(s)[k + 1] == id);
        }
        if ids(s).contains(id) && rid(s[0]) != id {
            let k = choose|k: int| 0 <= k < ids(s).len() && ids(s)[k] == id;
            assert(k > 0);
            assert(ids(t)[k - 1] == id);
        }
    }
}

/// Removes the first rule with the identifier; reports whether one was removed.
pub fn remove_first(v: &mut Vec<Arc<RuleInstance>>, id: &str) -> (r: bool)
    ensures
        final(v)@ == remove_first_id(old(v)@, id@),
        r == ids(old(v)@).contains(id@),
{
    match position_of_id(v, id) {
        Some(k) => {
            proof {
                lemma_remove_first_at(v@, id@, k as int);
                assert(ids(v@)[k as int] == id@);
            }
            v.remove(k);
            true
        },
        None => {
            proof {
                lemma_remove_first_absent(v@, id@);
            }
            false
        },
    }
}

/// Finds the first rule with the identifier.
pub fn find_first_rule(v: &Vec<Arc<RuleInstance>>, id: &str) -> (r: Option<Arc<RuleInstance>>)
    ensures
        r == find_first(v@, id@),
{
    match position_of_id(v, id) {
        Some(k) => {
            proof {
                lemma_remove_first_at(v@, id@, k as int);
            }
            Some(arc_share(&v[k]))
        },
        None => {
            proof {
                lemma_remove_first_absent(v@, id@);
            }
            None
        },
    }
}

proof fn lemma_insert_keeps_order(s: Seq<Arc<RuleInstance>>, x: Arc<RuleInstance>)
    requires
        priority_descending(s),
    ensures
        priority_descending(insert_by_priority(s, x)),
        insert_by_priority(s, x).to_multiset() =~= s.to_multiset().insert(x),
    decreases s.len(),
{
    broadcast use vstd::seq_lib::group_to_multiset_ensures;
    broadcast use vstd::seq_lib::lemma_multiset_commutative;
    if s.len() == 0 {
        assert(seq![x] =~= Seq::<Arc<RuleInstance>>::empty().push(x));
    } else {
        let t = s.drop_first();
        assert(s =~= seq![s[0]] + t);
        assert(seq![s[0]] =~= Seq::<Arc<RuleInstance>>::empty().push(s[0]));
        assert(seq![x] =~= Seq::<Arc<RuleInstance>>::empty().push(x));
        if prio(s[0]) >= prio(x) {
            assert(priority_descending(t)) by {
                assert forall|i: int, j: int| 0 <= i < j < t.len() implies prio(#[trigger] t[i]) >= prio(#[trigger] t[j]) by {
                    assert(t[i] == s[i + 1] && t[j] == s[j + 1]);
                }
            }
            lemma_insert_keeps_order(t, x);
            let rest = insert_by_priority(t, x);
            let r = seq![s[0]] + rest;
            assert forall|i: int, j: int| 0 <= i < j < r.len() implies prio(#[trigger] r[i]) >= prio(#[trigger] r[j]) by {
                if i == 0 {
                    let y = rest[j - 1];
                    assert(rest.contains(y));
                    assert(rest.to_multiset().count(y) > 0);
                    if y != x {
                        assert(t.to_multiset().count(y) > 0);
                        assert(t.contains(y));
                        let k = choose|k: int| 0 <= k < t.len() && t[k] == y;
                        assert(s[k + 1] == y);
                    }
                } else {
                    assert(r[i] == rest[i - 1] && r[j] == rest[j - 1]);
                }
            }
        } else {
            let r = seq![x] + s;
            assert forall|i: int, j: int| 0 <= i < j < r.len() implies prio(#[trigger] r[i]) >= prio(#[trigger] r[j]) by {
                if i == 0 {
                    assert(r[j] == s[j - 1]);
                    if j - 1 > 0 {
                        assert(prio(s[0]) >= prio(s[j - 1]));
                    }
                } else {
                    assert(r[i] == s[i - 1] && r[j] == s[j - 1]);
                }
            }
        }
    }
}

/// Sorting by priority orders the rules from the highest priority down and keeps every
/// rule exactly as often as it occurred.
pub proof fn lemma_sort_by_priority(s: Seq<Arc<RuleInstance>>)
    ensures
        priority_descending(sort_by_priority(s)),
        sort_by_priority(s).to_multiset() =~= s.to_multiset(),
    decreases s.len(),
{
    broadcast use vstd::seq_lib::group_to_multiset_ensures;
    if s.len() > 0 {
        lemma_sort_by_priority(s.drop_last());
        lemma_insert_keeps_order(sort_by_priority(s.drop_last()), s.last());
        assert(s.drop_last().push(s.last()) =~= s);
    }
}

/// De-duplication keeps each identifier exactly once: the result has no repeated
/// identifier, holds only rules of the input, and loses no identifier.
pub proof fn lemma_dedup_by_id(s: Seq<Arc<RuleInstance>>)
    ensures
        ids(dedup_by_id(s)).no_duplicates(),
        forall|r: Arc<RuleInstance>| dedup_by_id(s).contains(r) ==> s.contains(r),
        ids(dedup_by_id(s)).to_set() =~= ids(s).to_set(),
    decreases s.len(),
{
    if s.len() > 0 {
        let p = s.drop_last();
        lemma_dedup_by_id(p);
        let d = dedup_by_id(p);
        assert(s =~= p.push(s.last()));
        assert(ids(s) =~= ids(p).push(rid(s.last())));
        ids(p).lemma_push_to_set_commute(rid(s.last()));
        if !ids(d).contains(rid(s.last())) {
            assert(ids(d.push(s.last())) =~= ids(d).push(rid(s.last())));
            ids(d).lemma_push_to_set_commute(rid(s.last()));
            assert forall|r: Arc<RuleInstance>| d.push(s.last()).contains(r) implies s.contains(r) by {
                if r != s.last() {
                    let k = choose|k: int| 0 <= k < d.push(s.last()).len() && d.push(s.last())[k] == r;
                    assert(d.contains(r));
                    assert(p.contains(r));
                    let m = choose|m: int| 0 <= m < p.len() && p[m] == r;
                    assert(s[m] == r);
                } else {
                    assert(s[s.len() - 1] == r);
                }
            }
        } else {
            assert(ids(d).to_set().contains(rid(s.last())));
            assert forall|r: Arc<RuleInstance>| d.contains(r) implies s.contains(r) by {
                assert(p.contains(r));
                let m = choose|m: int| 0 <= m < p.len() && p[m] == r;
                assert(s[m] == r);
            }
        }
    }
}

/// A rule added after rules with other identifiers is what a search for its identifier
/// finds.
pub proof fn lemma_find_after_push(s: Seq<Arc<RuleInstance>>, x: Arc<RuleInstance>)
    requires
        !ids(s).contains(rid(x)),
    ensures
        find_first(s.push(x), rid(x)) == Some(x),
    decreases s.len(),
{
    if s.len() == 0 {
        assert(s.push(x)[0] == x);
    } else {
        assert(ids(s)[0] == rid(s[0]));
        assert(s.push(x).drop_first() =~= s.drop_first().push(x));
        assert(!ids(s.drop_first()).contains(rid(x))) by {
            if ids(s.drop_first()).contains(rid(x)) {
                let k = choose|k: int| 0 <= k < ids(s.drop_first()).len() && ids(s.drop_first())[k] == rid(x);
                assert(ids(s)[k + 1] == rid(x));
            }
        }
        lemma_find_after_push(s.drop_first(), x);
    }
}

/// Where identifiers are not repeated, after removing the rule with an identifier a
/// search for it finds nothing, and every other rule is still found as before.
pub proof fn lemma_find_after_remove(s: Seq<Arc<RuleInstance>>, id: Seq<char>, other: Seq<char>)
    requires
        ids(s).no_duplicates(),
    ensures
        find_first(remove_first_id(s, id), id) is None,
        other != id ==> find_first(remove_first_id(s, id), other) == find_first(s, other),
    decreases s.len(),
{
    if s.len() > 0 {
        let t = s.drop_first();
        assert(ids(t) =~= ids(s).drop_first());
        if rid(s[0]) == id {
            assert(find_first(t, id) is None) by {
                lemma_find_absent(t, id);
                if ids(t).contains(id) {
                    let k = choose|k: int| 0 <= k < ids(t).len() && ids(t)[k] == id;
                    assert(ids(s)[k + 1] == ids(s)[0]);
                }
            }
        } else {
            lemma_find_after_remove(t, id, other);
            assert((seq![s[0]] + remove_first_id(t, id)).drop_first() =~= remove_first_id(t, id));
            assert((seq![s[0]] + remove_first_id(t, id))[0] == s[0]);
        }
    }
}

/// A search for an identifier that no rule has finds nothing.
proof fn lemma_find_absent(s: Seq<Arc<RuleInstance>>, id: Seq<char>)
    ensures
        !ids(s).contains(id) ==> find_first(s, id) is None,
    decreases s.len(),
{
    if s.len() > 0 && !ids(s).contains(id) {
        assert(ids(s)[0] == rid(s[0]));
        assert(!ids(s.drop_first()).contains(id)) by {
            if ids(s.drop_first()).contains(id) {
                let k = choose|k: int| 0 <= k < ids(s.drop_first()).len() && ids(s.drop_first())[k] == id;
                assert(ids(s)[k + 1] == id);
            }
        }
        lemma_find_absent(s.drop_first(), id);
    }
}

} // verus!

//! The decisions of installing rules sent by the control plane: where a rule is sent to
//! be encoded, and the tally of installed rules per layer and of failures. Receiving
//! the request, encoding over the network and answering are done by the caller.
use vstd::prelude::*;
use crate::bridge::enforcement::encoding_path;
use crate::bridge::types::RuleFamilyId;
use crate::text::{owned, str_eq};

verus! {

/// Why a rule is not sent to be encoded.
#[derive(Debug, Clone, Copy, PartialEq, Eq, Structural)]
pub enum EncodingRefusal {
    /// The management plane encodes no rule of this family
    UnsupportedFamily(RuleFamilyId),
    /// The rule has no encoding payload (fail-closed)
    MissingPayload,
}

/// The management plane path that encodes rules of a family, if it encodes them.
pub open spec fn encoding_path_of(family: RuleFamilyId) -> Option<Seq<char>> {
    if family == RuleFamilyId::ToolWhitelist {
        Some("/encode/rule/tool_whitelist"@)
    } else if family == RuleFamilyId::ToolParamConstraint {
        Some("/encode/rule/tool_param_constraint"@)
    } else {
        None
    }
}

/// Where a rule of `family` is sent to be encoded: refused for a family the management
/// plane does not encode, and, failing closed, for a rule whose encoding payload is
/// empty.
pub fn encoding_request(family: RuleFamilyId, payload_empty: bool) -> (r: Result<&'static str, EncodingRefusal>)
    ensures
        encoding_path_of(family) is None ==> r == Err::<&'static str, EncodingRefusal>(EncodingRefusal::UnsupportedFamily(family)),
        encoding_path_of(family) is Some && payload_empty ==> r == Err::<&'static str, EncodingRefusal>(EncodingRefusal::MissingPayload),
        encoding_path_of(family) is Some && !payload_empty ==> (r matches Ok(p) && p@ == encoding_path_of(family)->0),
{
    match encoding_path(family) {
        None => Err(EncodingRefusal::UnsupportedFamily(family)),
        Some(path) => {
            if payload_empty {
                Err(EncodingRefusal::MissingPayload)
            } else {
                Ok(path)
            }
        },
    }
}

/// The per-layer counts of a tally, by the layers' names.
pub open spec fn counts_view(s: Seq<(String, usize)>) -> Seq<(Seq<char>, nat)> {
    s.map_values(|p: (String, usize)| (p.0@, p.1 as nat))
}

/// The sum of the counts.
pub open spec fn counts_total(s: Seq<(Seq<char>, nat)>) -> nat
    decreases s.len(),
{
    if s.len() == 0 {
        0
    } else {
        counts_total(s.drop_last()) + s.last().1
    }
}

/// The counts after one more rule of `layer`: its count rises by one, or it is added
/// last with a count of one.
pub open spec fn bump_layer(s: Seq<(Seq<char>, nat)>, layer: Seq<char>) -> Seq<(Seq<char>, nat)> {
    if exists|i: int| 0 <= i < s.len() && (#[trigger] s[i]).0 == layer {
        let i = choose|i: int| 0 <= i < s.len() && (#[trigger] s[i]).0 == layer;
        s.update(i, (layer, s[i].1 + 1))
    } else {
        s.push((layer, 1nat))
    }
}

/// No layer is counted twice.
pub open spec fn layers_distinct(s: Seq<(Seq<char>, nat)>) -> bool {
    forall|i: int, j: int| 0 <= i < j < s.len() ==> (#[trigger] s[i]).0 != (#[trigger] s[j]).0
}

proof fn lemma_count_le_total(s: Seq<(Seq<char>, nat)>, i: int)
    requires
        0 <= i < s.len(),
    ensures
        s[i].1 <= counts_total(s),
    decreases s.len(),
{
    if i < s.len() - 1 {
        lemma_count_le_total(s.drop_last(), i);
    }
}

proof fn lemma_total_bump_at(s: Seq<(Seq<char>, nat)>, i: int, k: Seq<char>)
    requires
        0 <= i < s.len(),
    ensures
        counts_total(s.update(i, (k, s[i].1 + 1))) == counts_total(s) + 1,
    decreases s.len(),
{
    let u = s.update(i, (k, s[i].1 + 1));
    if i == s.len() - 1 {
        assert(u.drop_last() =~= s.drop_last());
    } else {
        assert(u.drop_last() =~= s.drop_last().update(i, (k, s[i].1 + 1)));
        lemma_total_bump_at(s.drop_last(), i, k);
    }
}

/// The tally of an installation: rules installed, installed rules per layer (in the
/// order the layers first occurred), and the failures' messages, in order.
pub struct InstallTally {
    /// Rules installed
    pub installed: usize,
    /// Installed rules per layer name
    pub by_layer: Vec<(String, usize)>,
    /// Why rules failed, in order
    pub failures: Vec<String>,
}

impl InstallTally {
    /// The per-layer counts add up to the rules installed, and no layer occurs twice.
    pub open spec fn wf(&self) -> bool {
        &&& counts_total(counts_view(self.by_layer@)) == self.installed
        &&& layers_distinct(counts_view(self.by_layer@))
    }

    /// An empty tally.
    pub fn new() -> (r: Self)
        ensures
            r.wf(),
            r.installed == 0,
            r.by_layer@.len() == 0,
            r.failures@.len() == 0,
    {
        let r = InstallTally { installed: 0, by_layer: Vec::new(), failures: Vec::new() };
        proof {
            assert(counts_view(r.by_layer@) =~= Seq::empty());
        }
        r
    }

    /// Records a rule of `layer` installed.
    pub fn record_installed(&mut self, layer: &str)
        requires
            old(self).wf(),
            old(self).installed < usize::MAX,
        ensures
            final(self).wf(),
            final(self).installed == old(self).installed + 1,
            counts_view(final(self).by_layer@) == bump_layer(counts_view(old(self).by_layer@), layer@),
            final(self).failures@ == old(self).failures@,
    {
        let ghost v = counts_view(self.by_layer@);
        let n = self.by_layer.len();
        let mut i: usize = 0;
        while i < n
            invariant
                n == self.by_layer@.len(),
                v == counts_view(self.by_layer@),
                i <= n,
                forall|j: int| 0 <= j < i ==> (#[trigger] v[j]).0 != layer@,
            ensures
                i <= n,
                forall|j: int| 0 <= j < i ==> (#[trigger] v[j]).0 != layer@,
                i < n ==> v[i as int].0 == layer@,
            decreases n - i,
        {
            if str_eq(self.by_layer[i].0.as_str(), layer) {
                break;
            }
            i = i + 1;
        }
        if i < n {
            proof {
                assert(v[i as int].0 == layer@);
                let c = choose|j: int| 0 <= j < v.len() && (#[trigger] v[j]).0 == layer@;
                assert(c == i as int);
                lemma_count_le_total(v, i as int);
                lemma_total_bump_at(v, i as int, layer@);
            }
            let count = self.by_layer[i].1;
            let name = owned(layer);
            self.by_layer.set(i, (name, count + 1));
            proof {
                assert(counts_view(self.by_layer@) =~= v.update(i as int, (layer@, v[i as int].1 + 1)));
            }
        } else {
            self.by_layer.push((owned(layer), 1));
            proof {
                assert(counts_view(self.by_layer@) =~= v.push((layer@, 1nat)));
                assert(counts_view(self.by_layer@).drop_last() =~= v);
            }
        }
        self.installed = self.installed + 1;
    }

    /// Records a rule that failed, with why.
    pub fn record_failure(&mut self, message: String)
        requires
            old(self).wf(),
        ensures
            final(self).wf(),
            final(self).installed == old(self).installed,
            final(self).by_layer@ == old(self).by_layer@,
            final(self).failures@ == old(self).failures@.push(message),
    {
        self.failures.push(message);
    }

    /// The installation's answer: the number of rules installed when no rule failed,
    /// else the failures.
    pub fn finish(self) -> (r: Result<usize, Vec<String>>)
        ensures
            self.failures@.len() == 0 ==> r == Ok::<usize, Vec<String>>(self.installed),
            self.failures@.len() > 0 ==> (r matches Err(f) && f@ == self.failures@),
    {
        if self.failures.len() == 0 {
            Ok(self.installed)
        } else {
            Err(self.failures)
        }
    }
}

} // verus!

//! The decisions of the enforcement pipeline: which layer an intent targets, which
//! rules it is checked against and in what order, and the short-circuit verdict over the
//! per-rule results. Encoding, comparison and telemetry are done by the caller.
use vstd::prelude::*;
use vstd::string::*;
use std::sync::Arc;
use crate::bridge::bridge::{family_at, Bridge};
use crate::bridge::indices::flatten;
use crate::bridge::rule_instance::RuleInstance;
use crate::bridge::rule_seq::{dedup_by_id, extend_shared, sort_by_priority, sort_by_priority_desc};
use crate::bridge::table::RuleFamilyTable;
use crate::bridge::types::{all_families, family_layer, LayerId, RuleFamilyId};
use crate::text::{owned, str_eq};

verus! {

/// The layer named by a short layer code `L0` .. `L6`.
pub open spec fn layer_of_code(code: Seq<char>) -> Option<LayerId> {
    if code == "L0"@ {
        Some(LayerId::L0System)
    } else if code == "L1"@ {
        Some(LayerId::L1Input)
    } else if code == "L2"@ {
        Some(LayerId::L2Planner)
    } else if code == "L3"@ {
        Some(LayerId::L3ModelIO)
    } else if code == "L4"@ {
        Some(LayerId::L4ToolGateway)
    } else if code == "L5"@ {
        Some(LayerId::L5RAG)
    } else if code == "L6"@ {
        Some(LayerId::L6Egress)
    } else {
        None
    }
}

/// Parses a layer code; anything else is an unknown layer.
pub fn parse_layer(layer: &str) -> (r: Result<LayerId, String>)
    ensures
        r is Ok <==> layer_of_code(layer@) is Some,
        r matches Ok(l) ==> layer_of_code(layer@) == Some(l),
        r matches Err(e) ==> e@ == "Unknown layer: "@ + layer@,
{
    if str_eq(layer, "L0") {
        Ok(LayerId::L0System)
    } else if str_eq(layer, "L1") {
        Ok(LayerId::L1Input)
    } else if str_eq(layer, "L2") {
        Ok(LayerId::L2Planner)
    } else if str_eq(layer, "L3") {
        Ok(LayerId::L3ModelIO)
    } else if str_eq(layer, "L4") {
        Ok(LayerId::L4ToolGateway)
    } else if str_eq(layer, "L5") {
        Ok(LayerId::L5RAG)
    } else if str_eq(layer, "L6") {
        Ok(LayerId::L6Egress)
    } else {
        let mut e = owned("Unknown layer: ");
        e.append(layer);
        Err(e)
    }
}

/// Every rule of a table, each id once, by priority (what `query_all` answers).
pub open spec fn table_rules(t: RuleFamilyTable) -> Seq<Arc<RuleInstance>> {
    sort_by_priority(dedup_by_id(flatten(t.agent_index()) + flatten(t.secondary_index()) + t.global_rules()))
}

/// The rules of the tables of a layer among the first `k` families, table after table.
pub open spec fn layer_rules(b: Bridge, layer: LayerId, k: int) -> Seq<Arc<RuleInstance>>
    decreases k,
{
    if k <= 0 {
        Seq::empty()
    } else if family_layer(family_at(k - 1)) == layer {
        layer_rules(b, layer, k - 1) + table_rules(b.table(family_at(k - 1)))
    } else {
        layer_rules(b, layer, k - 1)
    }
}

/// The rules an intent for a layer is checked against: all rules of the layer's
/// tables, by priority (highest first, stable).
pub fn rules_for_layer(bridge: &Bridge, layer: &str) -> (r: Result<Vec<Arc<RuleInstance>>, String>)
    requires
        bridge.wf(),
    ensures
        r is Ok <==> layer_of_code(layer@) is Some,
        r matches Ok(v) ==> v@ == sort_by_priority(layer_rules(*bridge, layer_of_code(layer@)->0, 14)),
        r matches Err(e) ==> e@ == "Unknown layer: "@ + layer@,
{
    let layer_id = match parse_layer(layer) {
        Ok(l) => l,
        Err(e) => {
            return Err(e);
        },
    };
    let families = RuleFamilyId::all();
    let mut all_rules: Vec<Arc<RuleInstance>> = Vec::new();
    let mut i: usize = 0;
    while i < 14
        invariant
            families@ == all_families(),
            bridge.wf(),
            i <= 14,
            all_rules@ == layer_rules(*bridge, layer_id, i as int),
        decreases 14 - i,
    {
        let family = families[i];
        if family.layer() == layer_id {
            let table = match bridge.get_table(&family) {
                Some(t) => t,
                None => {
                    return Err(owned("Unknown layer: "));
                },
            };
            let rules = table.query_all();
            extend_shared(&mut all_rules, &rules);
        }
        i = i + 1;
    }
    Ok(sort_by_priority_desc(&all_rules))
}

/// The verdict of the pipeline: 0 blocks, 1 allows.
#[derive(Debug, Clone, Copy, PartialEq, Eq, Structural)]
pub enum EnforcementAction {
    /// Compare the intent with the rule at this position next.
    EvaluateRule(usize),
    /// Stop with a verdict after this many rules were evaluated.
    Decide { decision: u8, rules_evaluated: usize },
}

/// Progress through the ordered rules of a layer.
#[derive(Debug, Clone, Copy, PartialEq, Eq, Structural)]
pub struct EnforcementState {
    /// Rules to check
    pub total_rules: usize,
    /// Rules checked so far
    pub evaluated: usize,
}

/// The pipeline's first step: with no rules it blocks (fail-closed), otherwise it
/// evaluates the first rule.
pub fn start_enforcement(total_rules: usize) -> (r: (EnforcementState, EnforcementAction))
    ensures
        r.0 == (EnforcementState { total_rules, evaluated: 0 }),
        total_rules == 0 ==> r.1 == (EnforcementAction::Decide { decision: 0, rules_evaluated: 0 }),
        total_rules > 0 ==> r.1 == EnforcementAction::EvaluateRule(0),
{
    let state = EnforcementState { total_rules, evaluated: 0 };
    if total_rules == 0 {
        (state, EnforcementAction::Decide { decision: 0, rules_evaluated: 0 })
    } else {
        (state, EnforcementAction::EvaluateRule(0))
    }
}

/// The pipeline's first step once the intent's encoding is known: an intent that could
/// not be encoded is blocked with no rule evaluated (fail-closed), and otherwise the
/// pipeline starts over the layer's rules (blocking when there are none).
pub fn begin_enforcement(encoded: bool, total_rules: usize) -> (r: (EnforcementState, EnforcementAction))
    ensures
        !encoded ==> r.0 == (EnforcementState { total_rules: 0, evaluated: 0 }) && r.1 == (
        EnforcementAction::Decide { decision: 0, rules_evaluated: 0 }),
        encoded ==> r.0 == (EnforcementState { total_rules, evaluated: 0 }),
        encoded && total_rules == 0 ==> r.1 == (EnforcementAction::Decide { decision: 0, rules_evaluated: 0 }),
        encoded && total_rules > 0 ==> r.1 == EnforcementAction::EvaluateRule(0),
{
    if !encoded {
        (EnforcementState { total_rules: 0, evaluated: 0 }, EnforcementAction::Decide { decision: 0, rules_evaluated: 0 })
    } else {
        start_enforcement(total_rules)
    }
}

/// The next step after a rule's result (0 = blocked, otherwise passed): the first
/// block ends evaluation with a block; when every rule passed, the intent is allowed.
pub fn on_rule_decision(state: EnforcementState, decision: u8) -> (r: (EnforcementState, EnforcementAction))
    requires
        state.evaluated < state.total_rules,
    ensures
        r.0 == (EnforcementState { evaluated: (state.evaluated + 1) as usize, ..state }),
        decision == 0 ==> r.1 == (EnforcementAction::Decide {
            decision: 0,
            rules_evaluated: (state.evaluated + 1) as usize,
        }),
        decision != 0 && state.evaluated + 1 == state.total_rules ==> r.1 == (EnforcementAction::Decide {
            decision: 1,
            rules_evaluated: state.total_rules,
        }),
        decision != 0 && state.evaluated + 1 < state.total_rules ==> r.1 == EnforcementAction::EvaluateRule(
            (state.evaluated + 1) as usize,
        ),
{
    let evaluated = state.evaluated + 1;
    let next = EnforcementState { evaluated, ..state };
    if decision == 0 {
        (next, EnforcementAction::Decide { decision: 0, rules_evaluated: evaluated })
    } else if evaluated == state.total_rules {
        (next, EnforcementAction::Decide { decision: 1, rules_evaluated: evaluated })
    } else {
        (next, EnforcementAction::EvaluateRule(evaluated))
    }
}

/// The verdict and the number of evaluated rules when the rules' results are
/// `decisions` (one per rule, in rule order).
pub open spec fn verdict(decisions: Seq<u8>) -> (u8, nat)
    decreases decisions.len(),
{
    if decisions.len() == 0 {
        (0, 0)
    } else if decisions[0] == 0 {
        (0, 1)
    } else if decisions.len() == 1 {
        (1, 1)
    } else {
        let v = verdict(decisions.drop_first());
        (v.0, v.1 + 1)
    }
}

/// The action reached by running the pipeline from `state` over the remaining results.
pub open spec fn run_from(state: EnforcementState, decisions: Seq<u8>) -> EnforcementAction
    decreases decisions.len(),
{
    if state.evaluated >= state.total_rules || decisions.len() == 0 {
        EnforcementAction::Decide { decision: 0, rules_evaluated: state.evaluated }
    } else {
        let next = EnforcementState { evaluated: (state.evaluated + 1) as usize, ..state };
        if decisions[0] == 0 {
            EnforcementAction::Decide { decision: 0, rules_evaluated: (state.evaluated + 1) as usize }
        } else if state.evaluated + 1 == state.total_rules {
            EnforcementAction::Decide { decision: 1, rules_evaluated: state.total_rules }
        } else {
            run_from(next, decisions.drop_first())
        }
    }
}

/// Short-circuit evaluation: over one result per rule, the pipeline allows exactly
/// when there is at least one rule and every rule passed, and it stops at the first
/// blocking rule, having evaluated the rules up to and including it.
pub proof fn lemma_short_circuit(state: EnforcementState, decisions: Seq<u8>)
    requires
        state.evaluated <= state.total_rules,
        decisions.len() == state.total_rules - state.evaluated,
        state.total_rules <= usize::MAX,
    ensures
        run_from(state, decisions) == (EnforcementAction::Decide {
            decision: verdict(decisions).0,
            rules_evaluated: (state.evaluated + verdict(decisions).1) as usize,
        }),
        verdict(decisions).0 == 1 <==> (decisions.len() > 0 && forall|i: int|
            0 <= i < decisions.len() ==> #[trigger] decisions[i] != 0),
    decreases decisions.len(),
{
    if decisions.len() > 1 && decisions[0] != 0 {
        let next = EnforcementState { evaluated: (state.evaluated + 1) as usize, ..state };
        lemma_short_circuit(next, decisions.drop_first());
        let t = decisions.drop_first();
        if verdict(t).0 == 1 {
            assert forall|i: int| 0 <= i < decisions.len() implies #[trigger] decisions[i] != 0 by {
                if i > 0 {
                    assert(decisions[i] == t[i - 1]);
                }
            }
        } else {
            let k = choose|k: int| 0 <= k < t.len() && t[k] == 0;
            assert(decisions[k + 1] == 0);
        }
    }
}

/// The family whose rules the management plane encodes at install time, with the
/// path of its encoding endpoint; other families are not encoded.
pub fn encoding_path(family: RuleFamilyId) -> (r: Option<&'static str>)
    ensures
        family == RuleFamilyId::ToolWhitelist ==> (r matches Some(p) && p@ == "/encode/rule/tool_whitelist"@),
        family == RuleFamilyId::ToolParamConstraint ==> (r matches Some(p) && p@
            == "/encode/rule/tool_param_constraint"@),
        family != RuleFamilyId::ToolWhitelist && family != RuleFamilyId::ToolParamConstraint ==> r is None,
{
    match family {
        RuleFamilyId::ToolWhitelist => Some("/encode/rule/tool_whitelist"),
        RuleFamilyId::ToolParamConstraint => Some("/encode/rule/tool_param_constraint"),
        _ => None,
    }
}

/// The string without its leading `c` characters.
pub open spec fn trim_start_char(s: Seq<char>, c: char) -> Seq<char>
    decreases s.len(),
{
    if s.len() > 0 && s[0] == c {
        trim_start_char(s.drop_first(), c)
    } else {
        s
    }
}

/// The string without its trailing `c` characters.
pub open spec fn trim_end_char(s: Seq<char>, c: char) -> Seq<char>
    decreases s.len(),
{
    if s.len() > 0 && s.last() == c {
        trim_end_char(s.drop_last(), c)
    } else {
        s
    }
}

/// An endpoint base URL without trailing slashes.
pub fn sanitize_endpoint(url: &str) -> (r: String)
    ensures
        r@ == trim_end_char(url@, '/'),
{
    let mut end = url.unicode_len();
    assert(url@.subrange(0, end as int) =~= url@);
    while end > 0 && url.get_char(end - 1) == '/'
        invariant
            end <= url@.len(),
            trim_end_char(url@, '/') == trim_end_char(url@.subrange(0, end as int), '/'),
        decreases end,
    {
        proof {
            assert(url@.subrange(0, end as int).drop_last() =~= url@.subrange(0, end - 1));
        }
        end = end - 1;
    }
    proof {
        assert(url@.subrange(0, end as int) =~= trim_end_char(url@.subrange(0, end as int), '/'));
    }
    owned(url.substring_char(0, end))
}

/// The URL of an endpoint path under a base: base, one slash, and the path without its
/// leading slashes.
pub fn endpoint_url(base: &str, path: &str) -> (r: String)
    ensures
        r@ == base@ + "/"@ + trim_start_char(path@, '/'),
{
    let n = path.unicode_len();
    let mut start: usize = 0;
    assert(path@.subrange(0, n as int) =~= path@);
    while start < n && path.get_char(start) == '/'
        invariant
            n == path@.len(),
            start <= n,
            trim_start_char(path@, '/') == trim_start_char(path@.subrange(start as int, n as int), '/'),
        decreases n - start,
    {
        proof {
            assert(path@.subrange(start as int, n as int).drop_first() =~= path@.subrange(start + 1, n as int));
        }
        start = start + 1;
    }
    proof {
        assert(path@.subrange(start as int, n as int) =~= trim_start_char(path@.subrange(start as int, n as int), '/'));
    }
    let mut r = owned(base);
    r.append("/");
    r.append(path.substring_char(start, n));
    r
}

} // verus!

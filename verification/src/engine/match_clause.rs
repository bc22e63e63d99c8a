//! The cheap first tier of rule matching (header flags and id sets), the outcome of
//! the three tiers, and references to sandboxed hooks.
use vstd::prelude::*;
use std::time::Duration;
use crate::duration::{duration_from_millis, duration_of_millis};
use crate::engine::rule_metadata::{
    AgentId, FlowId, agent_texts, flow_texts, agents_contain, flows_contain, insert_agent,
    insert_flow,
};
use crate::text::{contains_str, has_substring, insert_text, list_contains, str_eq, strs_view};

verus! {

/// A set of up to 64 header flags, one per bit.
#[derive(Debug, Clone, Copy, PartialEq, Eq, Hash, Structural)]
pub struct HeaderFlags(u64);

impl View for HeaderFlags {
    type V = u64;

    closed spec fn view(&self) -> u64 {
        self.0
    }
}

impl HeaderFlags {
    /// The payload is encrypted.
    pub const ENCRYPTED: u64 = 1;
    /// The sender is authenticated.
    pub const AUTHENTICATED: u64 = 2;
    /// The sender is rate limited.
    pub const RATE_LIMITED: u64 = 4;
    /// The event has high priority.
    pub const HIGH_PRIORITY: u64 = 8;
    /// The payload holds personal data.
    pub const CONTAINS_PII: u64 = 16;
    /// The event must be audited.
    pub const REQUIRES_AUDIT: u64 = 32;
    /// The event is synthetic.
    pub const SYNTHETIC: u64 = 64;
    /// The response was cached.
    pub const CACHED: u64 = 128;

    /// The raw bits.
    pub fn bits(&self) -> (r: u64)
        ensures
            r == self@,
    {
        self.0
    }

    /// No flag set.
    pub fn empty() -> (r: Self)
        ensures
            r@ == 0,
    {
        HeaderFlags(0)
    }

    /// Every flag set.
    pub fn all() -> (r: Self)
        ensures
            r@ == u64::MAX,
    {
        HeaderFlags(u64::MAX)
    }

    /// The flags of the given bits.
    pub fn from_bits(bits: u64) -> (r: Self)
        ensures
            r@ == bits,
    {
        HeaderFlags(bits)
    }

    /// Whether every flag of `other` is set here.
    pub fn contains(&self, other: HeaderFlags) -> (r: bool)
        ensures
            r == (self@ & other@ == other@),
    {
        (self.0 & other.0) == other.0
    }

    /// Whether some flag of `other` is set here.
    pub fn intersects(&self, other: HeaderFlags) -> (r: bool)
        ensures
            r == (self@ & other@ != 0),
    {
        (self.0 & other.0) != 0
    }

    /// Whether no flag is set.
    pub fn is_empty(&self) -> (r: bool)
        ensures
            r == (self@ == 0),
    {
        self.0 == 0
    }

    /// Sets the bits of `flag`.
    pub fn set(&mut self, flag: u64)
        ensures
            final(self)@ == old(self)@ | flag,
    {
        self.0 = self.0 | flag;
    }

    /// Clears the bits of `flag`.
    pub fn clear(&mut self, flag: u64)
        ensures
            final(self)@ == old(self)@ & !flag,
    {
        self.0 = self.0 & !flag;
    }

    /// Whether some bit of `flag` is set.
    pub fn has(&self, flag: u64) -> (r: bool)
        ensures
            r == (self@ & flag != 0),
    {
        (self.0 & flag) != 0
    }
}

impl Default for HeaderFlags {
    /// No flag set.
    fn default() -> (r: Self)
        ensures
            r@ == 0,
    {
        HeaderFlags(0)
    }
}

/// After setting a non-empty flag, it is present; after clearing it, it is absent;
/// and clearing leaves the other bits as they were.
pub proof fn lemma_set_clear_has(bits: u64, flag: u64)
    ensures
        flag != 0 ==> (bits | flag) & flag != 0,
        (bits & !flag) & flag == 0,
        (bits & !flag) | (bits & flag) == bits,
{
    assert(flag != 0 ==> (bits | flag) & flag != 0) by (bit_vector);
    assert((bits & !flag) & flag == 0) by (bit_vector);
    assert((bits & !flag) | (bits & flag) == bits) by (bit_vector);
}

/// Every set of flags contains the empty set and shares nothing with it; only the
/// full set contains the full set.
pub proof fn lemma_empty_and_all(bits: u64)
    ensures
        bits & 0 == 0,
        (bits & u64::MAX == u64::MAX) <==> bits == u64::MAX,
{
    assert(bits & 0 == 0) by (bit_vector);
    assert((bits & u64::MAX == u64::MAX) <==> bits == u64::MAX) by (bit_vector);
}

/// The cheap predicates of a rule, read from event headers alone. An empty id or type
/// list admits anything; the lists hold no repeated text.
#[derive(Debug, Clone, PartialEq, Eq)]
pub struct FastMatch {
    /// Allowed source agents
    pub source_agents: Vec<AgentId>,
    /// Allowed destination agents
    pub dest_agents: Vec<AgentId>,
    /// Allowed flows
    pub flow_ids: Vec<FlowId>,
    /// Allowed payload types
    pub payload_types: Vec<String>,
    /// Flags that must be present
    pub required_flags: HeaderFlags,
    /// Flags that must be absent
    pub forbidden_flags: HeaderFlags,
}

/// An empty list admits anything; otherwise the value must be listed.
pub open spec fn admits_text(list: Seq<Seq<char>>, v: Seq<char>) -> bool {
    list.len() == 0 || list.contains(v)
}

/// An empty list admits anything; otherwise the value must be present and listed.
pub open spec fn admits_opt(list: Seq<Seq<char>>, v: Option<Seq<char>>) -> bool {
    list.len() == 0 || (v matches Some(x) && list.contains(x))
}

impl FastMatch {
    /// No list repeats a text.
    pub open spec fn wf(&self) -> bool {
        &&& agent_texts(self.source_agents@).no_duplicates()
        &&& agent_texts(self.dest_agents@).no_duplicates()
        &&& flow_texts(self.flow_ids@).no_duplicates()
        &&& strs_view(self.payload_types@).no_duplicates()
    }

    /// Whether an event with these headers passes every predicate.
    pub open spec fn admits(
        &self,
        source: Seq<char>,
        dest: Option<Seq<char>>,
        flow: Option<Seq<char>>,
        payload_type: Seq<char>,
        flags: u64,
    ) -> bool {
        &&& admits_text(agent_texts(self.source_agents@), source)
        &&& admits_opt(agent_texts(self.dest_agents@), dest)
        &&& admits_opt(flow_texts(self.flow_ids@), flow)
        &&& admits_text(strs_view(self.payload_types@), payload_type)
        &&& flags & self.required_flags@ == self.required_flags@
        &&& flags & self.forbidden_flags@ == 0
    }

    /// Nothing restricted: every list empty and no flag required or forbidden.
    pub open spec fn unrestricted(&self) -> bool {
        &&& self.source_agents@.len() == 0
        &&& self.dest_agents@.len() == 0
        &&& self.flow_ids@.len() == 0
        &&& self.payload_types@.len() == 0
        &&& self.required_flags@ == 0
        &&& self.forbidden_flags@ == 0
    }

    /// A fast match with no restriction.
    pub fn new() -> (r: Self)
        ensures
            r.wf(),
            r.unrestricted(),
    {
        let r = FastMatch {
            source_agents: Vec::new(),
            dest_agents: Vec::new(),
            flow_ids: Vec::new(),
            payload_types: Vec::new(),
            required_flags: HeaderFlags::empty(),
            forbidden_flags: HeaderFlags::empty(),
        };
        assert(agent_texts(r.source_agents@) =~= Seq::empty());
        assert(agent_texts(r.dest_agents@) =~= Seq::empty());
        assert(flow_texts(r.flow_ids@) =~= Seq::empty());
        assert(strs_view(r.payload_types@) =~= Seq::empty());
        r
    }

    /// A fast match that admits nothing: every flag both required and forbidden.
    pub fn match_none() -> (r: Self)
        ensures
            r.wf(),
            r.source_agents@.len() == 0,
            r.dest_agents@.len() == 0,
            r.flow_ids@.len() == 0,
            r.payload_types@.len() == 0,
            r.required_flags@ == u64::MAX,
            r.forbidden_flags@ == u64::MAX,
    {
        let mut r = FastMatch::new();
        r.required_flags = HeaderFlags::all();
        r.forbidden_flags = HeaderFlags::all();
        r
    }

    /// Whether an event with these headers passes: its source, destination, flow and
    /// payload type are admitted by the lists, every required flag is set and no
    /// forbidden flag is.
    pub fn evaluate_headers(
        &self,
        source_agent: &AgentId,
        dest_agent: Option<&AgentId>,
        flow_id: Option<&FlowId>,
        payload_type: &str,
        header_flags: HeaderFlags,
    ) -> (r: bool)
        ensures
            r == self.admits(
                source_agent@,
                match dest_agent {
                    Some(d) => Some(d@),
                    None => None,
                },
                match flow_id {
                    Some(f) => Some(f@),
                    None => None,
                },
                payload_type@,
                header_flags@,
            ),
    {
        proof {
            assert(agent_texts(self.source_agents@).len() == self.source_agents@.len());
            assert(agent_texts(self.dest_agents@).len() == self.dest_agents@.len());
            assert(flow_texts(self.flow_ids@).len() == self.flow_ids@.len());
            assert(strs_view(self.payload_types@).len() == self.payload_types@.len());
        }
        if self.source_agents.len() != 0 && !agents_contain(&self.source_agents, source_agent.as_str()) {
            return false;
        }
        if self.dest_agents.len() != 0 {
            match dest_agent {
                Some(d) => {
                    if !agents_contain(&self.dest_agents, d.as_str()) {
                        return false;
                    }
                },
                None => {
                    return false;
                },
            }
        }
        if self.flow_ids.len() != 0 {
            match flow_id {
                Some(f) => {
                    if !flows_contain(&self.flow_ids, f.as_str()) {
                        return false;
                    }
                },
                None => {
                    return false;
                },
            }
        }
        if self.payload_types.len() != 0 && !list_contains(&self.payload_types, payload_type) {
            return false;
        }
        if !header_flags.contains(self.required_flags) {
            return false;
        }
        if header_flags.intersects(self.forbidden_flags) {
            return false;
        }
        true
    }

    /// Whether nothing is restricted.
    pub fn matches_all(&self) -> (r: bool)
        ensures
            r == self.unrestricted(),
    {
        self.source_agents.len() == 0 && self.dest_agents.len() == 0 && self.flow_ids.len() == 0
            && self.payload_types.len() == 0 && self.required_flags.is_empty()
            && self.forbidden_flags.is_empty()
    }
}

impl Default for FastMatch {
    /// A fast match with no restriction.
    fn default() -> (r: Self)
        ensures
            r.wf(),
            r.unrestricted(),
    {
        FastMatch::new()
    }
}

/// A fast match with no restriction admits every event.
pub proof fn lemma_unrestricted_admits_all(
    m: FastMatch,
    source: Seq<char>,
    dest: Option<Seq<char>>,
    flow: Option<Seq<char>>,
    payload_type: Seq<char>,
    flags: u64,
)
    requires
        m.unrestricted(),
    ensures
        m.admits(source, dest, flow, payload_type, flags),
{
    assert(flags & 0 == 0) by (bit_vector);
}

/// A fast match that requires and forbids every flag admits no event.
pub proof fn lemma_match_none_admits_nothing(
    m: FastMatch,
    source: Seq<char>,
    dest: Option<Seq<char>>,
    flow: Option<Seq<char>>,
    payload_type: Seq<char>,
    flags: u64,
)
    requires
        m.required_flags@ == u64::MAX,
        m.forbidden_flags@ == u64::MAX,
    ensures
        !m.admits(source, dest, flow, payload_type, flags),
{
    assert((flags & u64::MAX == u64::MAX) ==> flags & u64::MAX != 0) by (bit_vector);
}

/// Step-by-step construction of a fast match.
#[derive(Debug)]
pub struct FastMatchBuilder {
    draft: FastMatch,
}

impl FastMatchBuilder {
    /// The fast match that `build` would give now.
    pub closed spec fn draft(&self) -> FastMatch {
        self.draft
    }

    /// No list repeats a text.
    pub open spec fn wf(&self) -> bool {
        self.draft().wf()
    }

    /// A builder with no restriction.
    pub fn new() -> (r: Self)
        ensures
            r.wf(),
            r.draft().unrestricted(),
    {
        FastMatchBuilder { draft: FastMatch::new() }
    }

    /// Admits the source agent too.
    pub fn add_source_agent(self, agent: AgentId) -> (r: Self)
        requires
            self.wf(),
        ensures
            r.wf(),
            agent_texts(r.draft().source_agents@).to_set() == agent_texts(self.draft().source_agents@).to_set().insert(agent@),
            r.draft().dest_agents == self.draft().dest_agents,
            r.draft().flow_ids == self.draft().flow_ids,
            r.draft().payload_types == self.draft().payload_types,
            r.draft().required_flags == self.draft().required_flags,
            r.draft().forbidden_flags == self.draft().forbidden_flags,
    {
        let mut b = self;
        insert_agent(&mut b.draft.source_agents, agent);
        b
    }

    /// Admits each of the source agents too.
    pub fn source_agents(self, agents: Vec<AgentId>) -> (r: Self)
        requires
            self.wf(),
        ensures
            r.wf(),
            agent_texts(r.draft().source_agents@).to_set() == agent_texts(self.draft().source_agents@).to_set().union(agent_texts(agents@).to_set()),
            r.draft().dest_agents == self.draft().dest_agents,
            r.draft().flow_ids == self.draft().flow_ids,
            r.draft().payload_types == self.draft().payload_types,
            r.draft().required_flags == self.draft().required_flags,
            r.draft().forbidden_flags == self.draft().forbidden_flags,
    {
        let mut b = self;
        let n = agents.len();
        let mut i: usize = 0;
        while i < n
            invariant
                n == agents@.len(),
                i <= n,
                b.wf(),
                agent_texts(b.draft().source_agents@).to_set() == agent_texts(self.draft().source_agents@).to_set().union(agent_texts(agents@.take(i as int)).to_set()),
                b.draft().dest_agents == self.draft().dest_agents,
                b.draft().flow_ids == self.draft().flow_ids,
                b.draft().payload_types == self.draft().payload_types,
                b.draft().required_flags == self.draft().required_flags,
                b.draft().forbidden_flags == self.draft().forbidden_flags,
            decreases n - i,
        {
            insert_agent(&mut b.draft.source_agents, agents[i].duplicate());
            proof {
                assert(agents@.take(i + 1) =~= agents@.take(i as int).push(agents@[i as int]));
                assert(agent_texts(agents@.take(i + 1)) =~= agent_texts(agents@.take(i as int)).push(agents@[i as int]@));
                agent_texts(agents@.take(i as int)).lemma_push_to_set_commute(agents@[i as int]@);
                assert(agent_texts(b.draft().source_agents@).to_set() =~= agent_texts(self.draft().source_agents@).to_set().union(agent_texts(agents@.take(i + 1)).to_set()));
            }
            i = i + 1;
        }
        assert(agents@.take(n as int) =~= agents@);
        b
    }

    /// Admits the destination agent too.
    pub fn add_dest_agent(self, agent: AgentId) -> (r: Self)
        requires
            self.wf(),
        ensures
            r.wf(),
            agent_texts(r.draft().dest_agents@).to_set() == agent_texts(self.draft().dest_agents@).to_set().insert(agent@),
            r.draft().source_agents == self.draft().source_agents,
            r.draft().flow_ids == self.draft().flow_ids,
            r.draft().payload_types == self.draft().payload_types,
            r.draft().required_flags == self.draft().required_flags,
            r.draft().forbidden_flags == self.draft().forbidden_flags,
    {
        let mut b = self;
        insert_agent(&mut b.draft.dest_agents, agent);
        b
    }

    /// Admits the flow too.
    pub fn add_flow_id(self, flow: FlowId) -> (r: Self)
        requires
            self.wf(),
        ensures
            r.wf(),
            flow_texts(r.draft().flow_ids@).to_set() == flow_texts(self.draft().flow_ids@).to_set().insert(flow@),
            r.draft().source_agents == self.draft().source_agents,
            r.draft().dest_agents == self.draft().dest_agents,
            r.draft().payload_types == self.draft().payload_types,
            r.draft().required_flags == self.draft().required_flags,
            r.draft().forbidden_flags == self.draft().forbidden_flags,
    {
        let mut b = self;
        insert_flow(&mut b.draft.flow_ids, flow);
        b
    }

    /// Admits the payload type too.
    pub fn add_payload_type(self, mime_type: String) -> (r: Self)
        requires
            self.wf(),
        ensures
            r.wf(),
            strs_view(r.draft().payload_types@).to_set() == strs_view(self.draft().payload_types@).to_set().insert(mime_type@),
            r.draft().source_agents == self.draft().source_agents,
            r.draft().dest_agents == self.draft().dest_agents,
            r.draft().flow_ids == self.draft().flow_ids,
            r.draft().required_flags == self.draft().required_flags,
            r.draft().forbidden_flags == self.draft().forbidden_flags,
    {
        let mut b = self;
        insert_text(&mut b.draft.payload_types, mime_type);
        b
    }

    /// Sets the required flags.
    pub fn require_flags(self, flags: HeaderFlags) -> (r: Self)
        ensures
            r.draft() == (FastMatch { required_flags: flags, ..self.draft() }),
    {
        let mut b = self;
        b.draft.required_flags = flags;
        b
    }

    /// Sets the forbidden flags.
    pub fn forbid_flags(self, flags: HeaderFlags) -> (r: Self)
        ensures
            r.draft() == (FastMatch { forbidden_flags: flags, ..self.draft() }),
    {
        let mut b = self;
        b.draft.forbidden_flags = flags;
        b
    }

    /// The fast match.
    pub fn build(self) -> (r: FastMatch)
        ensures
            r == self.draft(),
    {
        self.draft
    }
}

impl Default for FastMatchBuilder {
    /// A builder with no restriction.
    fn default() -> (r: Self)
        ensures
            r.wf(),
            r.draft().unrestricted(),
    {
        FastMatchBuilder::new()
    }
}

/// How a field is compared with a reference value.
#[derive(Debug, Clone, Copy, PartialEq, Eq, Structural)]
pub enum ComparisonOp {
    Equal,
    NotEqual,
    GreaterThan,
    GreaterThanOrEqual,
    LessThan,
    LessThanOrEqual,
    /// The string holds the reference as a substring
    Contains,
    /// The string starts with the reference
    StartsWith,
    /// The string ends with the reference
    EndsWith,
    /// The value is an element of the reference array
    In,
}

/// A pattern applied to the text of a field.
#[derive(Debug, Clone, PartialEq, Eq)]
pub struct RegexMatch {
    /// Field the pattern reads
    pub field_path: String,
    /// The pattern
    pub pattern: String,
    /// The whole text must match, not only a part of it
    pub full_match: bool,
}

impl RegexMatch {
    /// Whether the text of a field matches: equal to the pattern when the whole text
    /// must match, else holding it as a substring.
    pub fn matches_text(&self, text: &str) -> (r: bool)
        ensures
            r == if self.full_match {
                text@ == self.pattern@
            } else {
                has_substring(text@, self.pattern@)
            },
    {
        if self.full_match {
            str_eq(text, self.pattern.as_str())
        } else {
            contains_str(text, self.pattern.as_str())
        }
    }
}

/// Default time limit of a hook, in milliseconds.
pub const DEFAULT_HOOK_TIME_MS: u64 = 50;

/// Default memory limit of a hook: 10 MiB.
pub const DEFAULT_HOOK_MEMORY_BYTES: usize = 10485760;

/// Default CPU shares of a hook.
pub const DEFAULT_HOOK_CPU_SHARES: u32 = 100;

/// A sandboxed module that gives the third, semantic tier of matching.
#[derive(Debug)]
pub struct WasmHookRef {
    /// Hook identifier
    pub hook_id: String,
    /// Digest of the module, such as `sha256:...`
    pub module_digest: String,
    /// Time limit of one run
    pub max_exec_time: Duration,
    /// Memory limit in bytes
    pub memory_limit_bytes: usize,
    /// CPU shares
    pub cpu_shares: u32,
}

impl WasmHookRef {
    /// A hook with the default limits: 50 ms, 10 MiB, 100 shares.
    pub fn new(hook_id: String, module_digest: String) -> (r: Self)
        ensures
            r.hook_id@ == hook_id@,
            r.module_digest@ == module_digest@,
            r.max_exec_time == duration_of_millis(DEFAULT_HOOK_TIME_MS),
            r.memory_limit_bytes == DEFAULT_HOOK_MEMORY_BYTES,
            r.cpu_shares == DEFAULT_HOOK_CPU_SHARES,
    {
        WasmHookRef {
            hook_id,
            module_digest,
            max_exec_time: duration_from_millis(DEFAULT_HOOK_TIME_MS),
            memory_limit_bytes: DEFAULT_HOOK_MEMORY_BYTES,
            cpu_shares: DEFAULT_HOOK_CPU_SHARES,
        }
    }
}

impl Clone for WasmHookRef {
    /// A copy of the reference.
    fn clone(&self) -> (r: Self)
        ensures
            r.hook_id@ == self.hook_id@,
            r.module_digest@ == self.module_digest@,
            r.max_exec_time == self.max_exec_time,
            r.memory_limit_bytes == self.memory_limit_bytes,
            r.cpu_shares == self.cpu_shares,
    {
        WasmHookRef {
            hook_id: self.hook_id.clone(),
            module_digest: self.module_digest.clone(),
            max_exec_time: self.max_exec_time,
            memory_limit_bytes: self.memory_limit_bytes,
            cpu_shares: self.cpu_shares,
        }
    }
}

/// The tier at which matching was decided.
#[derive(Debug, Clone, Copy, PartialEq, Eq, Hash, Structural)]
pub enum MatchTier {
    /// No evaluation tier is present
    NoTier,
    /// The fast predicates failed
    FastMatch,
    /// The structured expression failed
    MatchExpression,
    /// The hook failed
    WasmHook,
    /// Every tier passed
    Complete,
}

/// Whether a rule matched, and which tier decided.
#[derive(Debug, Clone, Copy, PartialEq, Eq, Structural)]
pub struct MatchResult {
    /// The rule matched
    pub is_match: bool,
    /// The deciding tier
    pub tier: MatchTier,
}

impl MatchResult {
    /// A match: every tier passed.
    pub fn matched() -> (r: Self)
        ensures
            r == (MatchResult { is_match: true, tier: MatchTier::Complete }),
    {
        MatchResult { is_match: true, tier: MatchTier::Complete }
    }

    /// No match, decided at `tier`.
    pub fn no_match(tier: MatchTier) -> (r: Self)
        ensures
            r == (MatchResult { is_match: false, tier }),
    {
        MatchResult { is_match: false, tier }
    }
}

/// The outcome of the three tiers taken in order: the first that fails decides; a
/// missing hook passes; when every tier passes the clause matches, complete.
pub open spec fn tier_outcome(fast_ok: bool, expression_ok: bool, hook_ok: Option<bool>) -> MatchResult {
    if !fast_ok {
        MatchResult { is_match: false, tier: MatchTier::FastMatch }
    } else if !expression_ok {
        MatchResult { is_match: false, tier: MatchTier::MatchExpression }
    } else if hook_ok == Some(false) {
        MatchResult { is_match: false, tier: MatchTier::WasmHook }
    } else {
        MatchResult { is_match: true, tier: MatchTier::Complete }
    }
}

/// The result of a match clause from the verdicts of its tiers: fast predicates,
/// structured expression, and the hook when there is one.
pub fn clause_outcome(fast_ok: bool, expression_ok: bool, hook_ok: Option<bool>) -> (r: MatchResult)
    ensures
        r == tier_outcome(fast_ok, expression_ok, hook_ok),
{
    if !fast_ok {
        return MatchResult::no_match(MatchTier::FastMatch);
    }
    if !expression_ok {
        return MatchResult::no_match(MatchTier::MatchExpression);
    }
    match hook_ok {
        Some(false) => MatchResult::no_match(MatchTier::WasmHook),
        _ => MatchResult::matched(),
    }
}

/// The most expensive tier a clause uses: the hook if present, else the expression
/// unless it always matches, else the fast predicates unless they restrict nothing.
pub fn clause_max_tier(has_hook: bool, expression_always: bool, fast_matches_all: bool) -> (r: MatchTier)
    ensures
        r == if has_hook {
            MatchTier::WasmHook
        } else if !expression_always {
            MatchTier::MatchExpression
        } else if !fast_matches_all {
            MatchTier::FastMatch
        } else {
            MatchTier::NoTier
        },
{
    if has_hook {
        MatchTier::WasmHook
    } else if !expression_always {
        MatchTier::MatchExpression
    } else if !fast_matches_all {
        MatchTier::FastMatch
    } else {
        MatchTier::NoTier
    }
}

/// A clause matches exactly when its fast predicates and its expression pass and its
/// hook, if it has one, passes; a match is complete, and a miss names the first tier
/// that failed.
pub proof fn lemma_clause_outcome(fast_ok: bool, expression_ok: bool, hook_ok: Option<bool>)
    ensures
        tier_outcome(fast_ok, expression_ok, hook_ok).is_match <==> (fast_ok && expression_ok && hook_ok != Some(false)),
        !expression_ok ==> !tier_outcome(fast_ok, expression_ok, hook_ok).is_match,
        tier_outcome(fast_ok, expression_ok, hook_ok).is_match ==> tier_outcome(fast_ok, expression_ok, hook_ok).tier == MatchTier::Complete,
        !fast_ok ==> tier_outcome(fast_ok, expression_ok, hook_ok).tier == MatchTier::FastMatch,
        fast_ok && !expression_ok ==> tier_outcome(fast_ok, expression_ok, hook_ok).tier == MatchTier::MatchExpression,
        fast_ok && expression_ok && hook_ok == Some(false) ==> tier_outcome(fast_ok, expression_ok, hook_ok).tier == MatchTier::WasmHook,
{
}

/// The fast predicates refuse an event whose source agent a nonempty source list does
/// not name, one that lacks a required flag, and one that carries a forbidden flag.
pub proof fn lemma_fast_match_refusals(
    m: FastMatch,
    source: Seq<char>,
    dest: Option<Seq<char>>,
    flow: Option<Seq<char>>,
    payload_type: Seq<char>,
    flags: u64,
)
    ensures
        m.source_agents@.len() > 0 && !agent_texts(m.source_agents@).contains(source) ==> !m.admits(source, dest, flow, payload_type, flags),
        flags & m.required_flags@ != m.required_flags@ ==> !m.admits(source, dest, flow, payload_type, flags),
        flags & m.forbidden_flags@ != 0 ==> !m.admits(source, dest, flow, payload_type, flags),
        m.flow_ids@.len() > 0 && flow is None ==> !m.admits(source, dest, flow, payload_type, flags),
{
}

} // verus!

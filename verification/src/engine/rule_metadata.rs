//! Rule identity, lifecycle state, enforcement classification and scope.
use vstd::prelude::*;
use vstd::arithmetic::power::pow;
use vstd::string::*;
use crate::text::{decimal, hex_char, push_decimal, push_signed_decimal, signed_decimal, str_eq};

verus! {

/// The `i`-th of the 32 hexadecimal digits of a 128-bit value, most significant first.
pub open spec fn nibble(v: u128, i: int) -> nat {
    ((v as int / pow(16, (31 - i) as nat)) % 16) as nat
}

/// The hyphenated lowercase form of a UUID: 8-4-4-4-12 hexadecimal digits.
pub open spec fn uuid_text(v: u128) -> Seq<char> {
    Seq::new(
        36,
        |k: int|
            if k == 8 || k == 13 || k == 18 || k == 23 {
                '-'
            } else {
                let before: int = if k < 8 {
                    0
                } else if k < 13 {
                    1
                } else if k < 18 {
                    2
                } else if k < 23 {
                    3
                } else {
                    4
                };
                hex_char(nibble(v, k - before))
            },
    )
}

/// Calls `Uuid::new_v4` and reads the value as a `u128`. The value is random; the crate
/// masks in the version (4, bits 76..80) and the RFC 4122 variant (`10`, bits 62..64),
/// and that is all that is claimed of it.
#[verifier::external_body]
fn uuid_v4_value() -> (r: u128)
    ensures
        (r >> 76u128) & 0xfu128 == 4,
        (r >> 62u128) & 0x3u128 == 2,
{
    uuid::Uuid::new_v4().as_u128()
}

/// Calls `Uuid::from_u128` and formats it with `to_string`. Claims the result is the
/// hyphenated lowercase hexadecimal form, as the crate's `Display` writes it.
#[verifier::external_body]
fn uuid_string(v: u128) -> (r: String)
    ensures
        r@ == uuid_text(v),
{
    uuid::Uuid::from_u128(v).to_string()
}

/// A rule identifier: a random (version 4) UUID, held by its 128-bit value.
#[derive(Debug, Clone, Copy, PartialEq, Eq, Hash, Structural)]
pub struct RuleId(u128);

impl RuleId {
    /// The 128-bit value of the identifier.
    pub closed spec fn value(&self) -> u128 {
        self.0
    }

    /// A fresh random identifier: a version 4 UUID of the RFC 4122 variant.
    pub fn new() -> (r: Self)
        ensures
            (r.value() >> 76u128) & 0xfu128 == 4,
            (r.value() >> 62u128) & 0x3u128 == 2,
    {
        RuleId(uuid_v4_value())
    }

    /// The identifier of a UUID value.
    pub fn from_u128(v: u128) -> (r: Self)
        ensures
            r.value() == v,
    {
        RuleId(v)
    }

    /// The 128-bit value of the identifier.
    pub fn as_u128(&self) -> (r: u128)
        ensures
            r == self.value(),
    {
        self.0
    }

    /// The hyphenated lowercase form of the identifier; also its display form.
    pub fn as_str(&self) -> (r: String)
        ensures
            r@ == uuid_text(self.value()),
    {
        uuid_string(self.0)
    }
}

impl Default for RuleId {
    /// A fresh random identifier: a version 4 UUID of the RFC 4122 variant.
    fn default() -> (r: Self)
        ensures
            (r.value() >> 76u128) & 0xfu128 == 4,
            (r.value() >> 62u128) & 0x3u128 == 2,
    {
        RuleId::new()
    }
}

/// An agent identifier.
#[derive(Debug, Clone, PartialEq, Eq, Hash)]
pub struct AgentId(String);

impl View for AgentId {
    type V = Seq<char>;

    closed spec fn view(&self) -> Seq<char> {
        self.0@
    }
}

impl AgentId {
    /// An agent id with the given text.
    pub fn new(id: String) -> (r: Self)
        ensures
            r@ == id@,
    {
        AgentId(id)
    }

    /// The text of the id.
    pub fn as_str(&self) -> (r: &str)
        ensures
            r@ == self@,
    {
        self.0.as_str()
    }

    /// A copy of the id.
    pub fn duplicate(&self) -> (r: Self)
        ensures
            r@ == self@,
    {
        AgentId(self.0.clone())
    }
}

/// A flow identifier.
#[derive(Debug, Clone, PartialEq, Eq, Hash)]
pub struct FlowId(String);

impl View for FlowId {
    type V = Seq<char>;

    closed spec fn view(&self) -> Seq<char> {
        self.0@
    }
}

impl FlowId {
    /// A flow id with the given text.
    pub fn new(id: String) -> (r: Self)
        ensures
            r@ == id@,
    {
        FlowId(id)
    }

    /// The text of the id.
    pub fn as_str(&self) -> (r: &str)
        ensures
            r@ == self@,
    {
        self.0.as_str()
    }

    /// A copy of the id.
    pub fn duplicate(&self) -> (r: Self)
        ensures
            r@ == self@,
    {
        FlowId(self.0.clone())
    }
}

/// Lifecycle state of a rule.
#[derive(Debug, Clone, Copy, PartialEq, Eq, Hash, Structural)]
pub enum RuleState {
    /// Loaded but not enforcing
    Staged,
    /// Enforcing
    Active,
    /// Temporarily disabled
    Paused,
    /// Permanently disabled
    Revoked,
}

/// The display form of a state.
pub open spec fn state_text(s: RuleState) -> Seq<char> {
    match s {
        RuleState::Staged => "staged"@,
        RuleState::Active => "active"@,
        RuleState::Paused => "paused"@,
        RuleState::Revoked => "revoked"@,
    }
}

impl RuleState {
    /// Whether the rule is active.
    pub fn is_active(&self) -> (r: bool)
        ensures
            r == (*self == RuleState::Active),
    {
        match self {
            RuleState::Active => true,
            _ => false,
        }
    }

    /// Whether the rule can be evaluated: staged or active.
    pub fn is_evaluable(&self) -> (r: bool)
        ensures
            r == (*self == RuleState::Staged || *self == RuleState::Active),
    {
        match self {
            RuleState::Staged | RuleState::Active => true,
            _ => false,
        }
    }

    /// Whether the rule is revoked.
    pub fn is_revoked(&self) -> (r: bool)
        ensures
            r == (*self == RuleState::Revoked),
    {
        match self {
            RuleState::Revoked => true,
            _ => false,
        }
    }

    /// The display form, such as `staged`.
    pub fn display_name(&self) -> (r: &'static str)
        ensures
            r@ == state_text(*self),
    {
        match self {
            RuleState::Staged => "staged",
            RuleState::Active => "active",
            RuleState::Paused => "paused",
            RuleState::Revoked => "revoked",
        }
    }
}

impl Default for RuleState {
    /// Staged.
    fn default() -> (r: Self)
        ensures
            r == RuleState::Staged,
    {
        RuleState::Staged
    }
}

/// Whether a violation blocks or is only reported.
#[derive(Debug, Clone, Copy, PartialEq, Eq, Hash, Structural)]
pub enum EnforcementMode {
    Hard,
    Soft,
}

/// The display form of a mode.
pub open spec fn mode_text(m: EnforcementMode) -> Seq<char> {
    match m {
        EnforcementMode::Hard => "HARD"@,
        EnforcementMode::Soft => "SOFT"@,
    }
}

impl EnforcementMode {
    /// The display form, `HARD` or `SOFT`.
    pub fn display_name(&self) -> (r: &'static str)
        ensures
            r@ == mode_text(*self),
    {
        match self {
            EnforcementMode::Hard => "HARD",
            EnforcementMode::Soft => "SOFT",
        }
    }
}

impl Default for EnforcementMode {
    /// Hard.
    fn default() -> (r: Self)
        ensures
            r == EnforcementMode::Hard,
    {
        EnforcementMode::Hard
    }
}

/// What kind of effect a rule has.
#[derive(Debug, Clone, Copy, PartialEq, Eq, Hash, Structural)]
pub enum EnforcementClass {
    BlockDeny,
    Transform,
    Augment,
    Observational,
    Control,
    RateLimit,
    Graceful,
}

/// The display form of a class.
pub open spec fn class_text(c: EnforcementClass) -> Seq<char> {
    match c {
        EnforcementClass::BlockDeny => "block_deny"@,
        EnforcementClass::Transform => "transform"@,
        EnforcementClass::Augment => "augment"@,
        EnforcementClass::Observational => "observational"@,
        EnforcementClass::Control => "control"@,
        EnforcementClass::RateLimit => "rate_limit"@,
        EnforcementClass::Graceful => "graceful"@,
    }
}

impl EnforcementClass {
    /// The display form, such as `block_deny`.
    pub fn display_name(&self) -> (r: &'static str)
        ensures
            r@ == class_text(*self),
    {
        match self {
            EnforcementClass::BlockDeny => "block_deny",
            EnforcementClass::Transform => "transform",
            EnforcementClass::Augment => "augment",
            EnforcementClass::Observational => "observational",
            EnforcementClass::Control => "control",
            EnforcementClass::RateLimit => "rate_limit",
            EnforcementClass::Graceful => "graceful",
        }
    }
}

/// The texts of a list of agent ids.
pub open spec fn agent_texts(v: Seq<AgentId>) -> Seq<Seq<char>> {
    v.map_values(|a: AgentId| a@)
}

/// The texts of a list of flow ids.
pub open spec fn flow_texts(v: Seq<FlowId>) -> Seq<Seq<char>> {
    v.map_values(|f: FlowId| f@)
}

/// Whether a list of agent ids holds one with the text.
pub fn agents_contain(v: &Vec<AgentId>, id: &str) -> (r: bool)
    ensures
        r == agent_texts(v@).contains(id@),
{
    let n = v.len();
    let mut i: usize = 0;
    while i < n
        invariant
            n == v@.len(),
            i <= n,
            forall|j: int| 0 <= j < i ==> v@[j]@ != id@,
        decreases n - i,
    {
        if str_eq(v[i].as_str(), id) {
            assert(agent_texts(v@)[i as int] == id@);
            return true;
        }
        i = i + 1;
    }
    assert(!agent_texts(v@).contains(id@)) by {
        if agent_texts(v@).contains(id@) {
            let k = choose|k: int| 0 <= k < agent_texts(v@).len() && agent_texts(v@)[k] == id@;
            assert(v@[k]@ == id@);
        }
    }
    false
}

/// Whether a list of flow ids holds one with the text.
pub fn flows_contain(v: &Vec<FlowId>, id: &str) -> (r: bool)
    ensures
        r == flow_texts(v@).contains(id@),
{
    let n = v.len();
    let mut i: usize = 0;
    while i < n
        invariant
            n == v@.len(),
            i <= n,
            forall|j: int| 0 <= j < i ==> v@[j]@ != id@,
        decreases n - i,
    {
        if str_eq(v[i].as_str(), id) {
            assert(flow_texts(v@)[i as int] == id@);
            return true;
        }
        i = i + 1;
    }
    assert(!flow_texts(v@).contains(id@)) by {
        if flow_texts(v@).contains(id@) {
            let k = choose|k: int| 0 <= k < flow_texts(v@).len() && flow_texts(v@)[k] == id@;
            assert(v@[k]@ == id@);
        }
    }
    false
}

/// Adds an agent id to a list of distinct ids, unless one with its text is there.
pub fn insert_agent(v: &mut Vec<AgentId>, a: AgentId)
    requires
        agent_texts(old(v)@).no_duplicates(),
    ensures
        agent_texts(final(v)@).no_duplicates(),
        agent_texts(final(v)@).to_set() == agent_texts(old(v)@).to_set().insert(a@),
{
    if !agents_contain(v, a.as_str()) {
        let ghost before = v@;
        let ghost t = a@;
        v.push(a);
        proof {
            assert(agent_texts(v@) =~= agent_texts(before).push(t));
            agent_texts(before).lemma_push_to_set_commute(t);
        }
    } else {
        assert(agent_texts(v@).to_set().contains(a@));
        assert(agent_texts(v@).to_set() =~= agent_texts(v@).to_set().insert(a@));
    }
}

/// Adds a flow id to a list of distinct ids, unless one with its text is there.
pub fn insert_flow(v: &mut Vec<FlowId>, f: FlowId)
    requires
        flow_texts(old(v)@).no_duplicates(),
    ensures
        flow_texts(final(v)@).no_duplicates(),
        flow_texts(final(v)@).to_set() == flow_texts(old(v)@).to_set().insert(f@),
{
    if !flows_contain(v, f.as_str()) {
        let ghost before = v@;
        let ghost t = f@;
        v.push(f);
        proof {
            assert(flow_texts(v@) =~= flow_texts(before).push(t));
            flow_texts(before).lemma_push_to_set_commute(t);
        }
    } else {
        assert(flow_texts(v@).to_set().contains(f@));
        assert(flow_texts(v@).to_set() =~= flow_texts(v@).to_set().insert(f@));
    }
}

/// Which agents and flows a rule applies to. The id lists are sets: an id occurs at
/// most once.
#[derive(Debug, Clone)]
pub struct RuleScope {
    /// Applies to everything
    pub is_global: bool,
    /// Source agents
    pub agent_ids: Vec<AgentId>,
    /// Flows
    pub flow_ids: Vec<FlowId>,
    /// Destination agents
    pub dest_agent_ids: Vec<AgentId>,
    /// Payload data types
    pub payload_dtypes: Vec<String>,
}

impl RuleScope {
    /// The agent ids as a set of texts.
    pub open spec fn agent_set(&self) -> Set<Seq<char>> {
        agent_texts(self.agent_ids@).to_set()
    }

    /// The flow ids as a set of texts.
    pub open spec fn flow_set(&self) -> Set<Seq<char>> {
        flow_texts(self.flow_ids@).to_set()
    }

    /// Agent and flow ids occur at most once.
    pub open spec fn distinct(&self) -> bool {
        agent_texts(self.agent_ids@).no_duplicates() && flow_texts(self.flow_ids@).no_duplicates()
    }

    /// The scope matches an event from the agent on the flow (either may be unknown).
    pub open spec fn spec_matches(&self, agent: Option<Seq<char>>, flow: Option<Seq<char>>) -> bool {
        ||| self.is_global
        ||| (agent matches Some(a) && self.agent_set().contains(a))
        ||| (flow matches Some(f) && self.flow_set().contains(f))
    }

    /// A scope that applies to nothing yet.
    pub fn new() -> (r: Self)
        ensures
            !r.is_global,
            r.agent_ids@.len() == 0,
            r.flow_ids@.len() == 0,
            r.dest_agent_ids@.len() == 0,
            r.payload_dtypes@.len() == 0,
            r.distinct(),
    {
        let r = RuleScope {
            is_global: false,
            agent_ids: Vec::new(),
            flow_ids: Vec::new(),
            dest_agent_ids: Vec::new(),
            payload_dtypes: Vec::new(),
        };
        assert(agent_texts(r.agent_ids@) =~= Seq::empty());
        assert(flow_texts(r.flow_ids@) =~= Seq::empty());
        r
    }

    /// A scope that applies to everything.
    pub fn global() -> (r: Self)
        ensures
            r.is_global,
            r.agent_ids@.len() == 0,
            r.flow_ids@.len() == 0,
            r.dest_agent_ids@.len() == 0,
            r.payload_dtypes@.len() == 0,
            r.distinct(),
    {
        let mut r = RuleScope::new();
        r.set_global();
        r
    }

    /// A scope for the given agents (repeated ids count once).
    pub fn for_agents(agent_ids: Vec<AgentId>) -> (r: Self)
        ensures
            !r.is_global,
            r.agent_set() == agent_texts(agent_ids@).to_set(),
            r.flow_ids@.len() == 0,
            r.distinct(),
    {
        let mut r = RuleScope::new();
        let n = agent_ids.len();
        let mut i: usize = 0;
        while i < n
            invariant
                n == agent_ids@.len(),
                i <= n,
                !r.is_global,
                r.distinct(),
                r.flow_ids@.len() == 0,
                r.agent_set() == agent_texts(agent_ids@.take(i as int)).to_set(),
            decreases n - i,
        {
            r.add_agent(agent_ids[i].duplicate());
            proof {
                assert(agent_ids@.take(i + 1) =~= agent_ids@.take(i as int).push(agent_ids@[i as int]));
                assert(agent_texts(agent_ids@.take(i + 1)) =~= agent_texts(agent_ids@.take(i as int)).push(agent_ids@[i as int]@));
                agent_texts(agent_ids@.take(i as int)).lemma_push_to_set_commute(agent_ids@[i as int]@);
            }
            i = i + 1;
        }
        assert(agent_ids@.take(n as int) =~= agent_ids@);
        r
    }

    /// A scope for the given flows (repeated ids count once).
    pub fn for_flows(flow_ids: Vec<FlowId>) -> (r: Self)
        ensures
            !r.is_global,
            r.flow_set() == flow_texts(flow_ids@).to_set(),
            r.agent_ids@.len() == 0,
            r.distinct(),
    {
        let mut r = RuleScope::new();
        let n = flow_ids.len();
        let mut i: usize = 0;
        while i < n
            invariant
                n == flow_ids@.len(),
                i <= n,
                !r.is_global,
                r.distinct(),
                r.agent_ids@.len() == 0,
                r.flow_set() == flow_texts(flow_ids@.take(i as int)).to_set(),
            decreases n - i,
        {
            r.add_flow(flow_ids[i].duplicate());
            proof {
                assert(flow_ids@.take(i + 1) =~= flow_ids@.take(i as int).push(flow_ids@[i as int]));
                assert(flow_texts(flow_ids@.take(i + 1)) =~= flow_texts(flow_ids@.take(i as int)).push(flow_ids@[i as int]@));
                flow_texts(flow_ids@.take(i as int)).lemma_push_to_set_commute(flow_ids@[i as int]@);
            }
            i = i + 1;
        }
        assert(flow_ids@.take(n as int) =~= flow_ids@);
        r
    }

    /// Makes the scope global.
    pub fn set_global(&mut self)
        ensures
            final(self).is_global,
            final(self).agent_ids@ == old(self).agent_ids@,
            final(self).flow_ids@ == old(self).flow_ids@,
            final(self).dest_agent_ids@ == old(self).dest_agent_ids@,
            final(self).payload_dtypes@ == old(self).payload_dtypes@,
    {
        self.is_global = true;
    }

    /// Adds an agent; the scope stops being global.
    pub fn add_agent(&mut self, agent_id: AgentId)
        requires
            old(self).distinct(),
        ensures
            !final(self).is_global,
            final(self).distinct(),
            final(self).agent_set() == old(self).agent_set().insert(agent_id@),
            final(self).flow_ids@ == old(self).flow_ids@,
            final(self).dest_agent_ids@ == old(self).dest_agent_ids@,
            final(self).payload_dtypes@ == old(self).payload_dtypes@,
    {
        self.is_global = false;
        insert_agent(&mut self.agent_ids, agent_id);
    }

    /// Adds a flow; the scope stops being global.
    pub fn add_flow(&mut self, flow_id: FlowId)
        requires
            old(self).distinct(),
        ensures
            !final(self).is_global,
            final(self).distinct(),
            final(self).flow_set() == old(self).flow_set().insert(flow_id@),
            final(self).agent_ids@ == old(self).agent_ids@,
            final(self).dest_agent_ids@ == old(self).dest_agent_ids@,
            final(self).payload_dtypes@ == old(self).payload_dtypes@,
    {
        self.is_global = false;
        insert_flow(&mut self.flow_ids, flow_id);
    }

    /// Whether the scope applies: it is global, lists the agent, or lists the flow.
    pub fn matches(&self, agent_id: Option<&AgentId>, flow_id: Option<&FlowId>) -> (r: bool)
        ensures
            r == self.spec_matches(
                match agent_id {
                    Some(a) => Some(a@),
                    None => None,
                },
                match flow_id {
                    Some(f) => Some(f@),
                    None => None,
                },
            ),
    {
        if self.is_global {
            return true;
        }
        if let Some(agent) = agent_id {
            if agents_contain(&self.agent_ids, agent.as_str()) {
                return true;
            }
        }
        if let Some(flow) = flow_id {
            if flows_contain(&self.flow_ids, flow.as_str()) {
                return true;
            }
        }
        false
    }

    /// A copy of the scope, field by field.
    pub fn duplicate(&self) -> (r: Self)
        ensures
            r.is_global == self.is_global,
            agent_texts(r.agent_ids@) == agent_texts(self.agent_ids@),
            flow_texts(r.flow_ids@) == flow_texts(self.flow_ids@),
            agent_texts(r.dest_agent_ids@) == agent_texts(self.dest_agent_ids@),
            r.payload_dtypes@ == self.payload_dtypes@,
    {
        RuleScope {
            is_global: self.is_global,
            agent_ids: copy_agents(&self.agent_ids),
            flow_ids: copy_flows(&self.flow_ids),
            dest_agent_ids: copy_agents(&self.dest_agent_ids),
            payload_dtypes: self.payload_dtypes.clone(),
        }
    }

    /// Whether the scope is global.
    pub fn is_global(&self) -> (r: bool)
        ensures
            r == self.is_global,
    {
        self.is_global
    }

    /// How many entities the scope names: `usize::MAX` for a global scope, else the
    /// number of agents plus flows.
    pub fn entity_count(&self) -> (r: usize)
        requires
            self.agent_ids@.len() + self.flow_ids@.len() <= usize::MAX,
        ensures
            r == if self.is_global {
                usize::MAX as int
            } else {
                (self.agent_ids@.len() + self.flow_ids@.len()) as int
            },
    {
        if self.is_global {
            usize::MAX
        } else {
            self.agent_ids.len() + self.flow_ids.len()
        }
    }
}

impl Default for RuleScope {
    /// A scope that applies to nothing yet.
    fn default() -> (r: Self)
        ensures
            !r.is_global,
            r.agent_ids@.len() == 0,
            r.flow_ids@.len() == 0,
            r.distinct(),
    {
        RuleScope::new()
    }
}

fn copy_agents(v: &Vec<AgentId>) -> (r: Vec<AgentId>)
    ensures
        agent_texts(r@) == agent_texts(v@),
{
    let mut r: Vec<AgentId> = Vec::new();
    let n = v.len();
    let mut i: usize = 0;
    while i < n
        invariant
            n == v@.len(),
            i <= n,
            agent_texts(r@) == agent_texts(v@.take(i as int)),
        decreases n - i,
    {
        let ghost before = r@;
        r.push(v[i].duplicate());
        proof {
            assert(v@.take(i + 1) =~= v@.take(i as int).push(v@[i as int]));
            assert(agent_texts(r@) =~= agent_texts(before).push(v@[i as int]@));
            assert(agent_texts(v@.take(i + 1)) =~= agent_texts(v@.take(i as int)).push(v@[i as int]@));
        }
        i = i + 1;
    }
    assert(v@.take(n as int) =~= v@);
    r
}

fn copy_flows(v: &Vec<FlowId>) -> (r: Vec<FlowId>)
    ensures
        flow_texts(r@) == flow_texts(v@),
{
    let mut r: Vec<FlowId> = Vec::new();
    let n = v.len();
    let mut i: usize = 0;
    while i < n
        invariant
            n == v@.len(),
            i <= n,
            flow_texts(r@) == flow_texts(v@.take(i as int)),
        decreases n - i,
    {
        let ghost before = r@;
        r.push(v[i].duplicate());
        proof {
            assert(v@.take(i + 1) =~= v@.take(i as int).push(v@[i as int]));
            assert(flow_texts(r@) =~= flow_texts(before).push(v@[i as int]@));
            assert(flow_texts(v@.take(i + 1)) =~= flow_texts(v@.take(i as int)).push(v@[i as int]@));
        }
        i = i + 1;
    }
    assert(v@.take(n as int) =~= v@);
    r
}

/// A UTC instant as seconds and nanoseconds since the Unix epoch, as chrono's
/// `UtcTimestamp` reports it through `timestamp` and `timestamp_subsec_nanos`.
#[derive(Debug, Clone, Copy, PartialEq, Eq, Hash, Structural)]
pub struct UtcTimestamp {
    /// Whole seconds since the epoch
    pub secs: i64,
    /// Nanoseconds past the second
    pub nanos: u32,
}

/// Calls `Utc::now` and reads its seconds and nanoseconds. The current time is not a
/// function of anything here; claimed is only what chrono keeps of every time: the
/// nanoseconds past the second stay below two billion (above one billion in a leap
/// second).
#[verifier::external_body]
fn utc_now() -> (r: UtcTimestamp)
    ensures
        r.nanos < 2_000_000_000,
{
    let now = chrono::Utc::now();
    UtcTimestamp { secs: now.timestamp(), nanos: now.timestamp_subsec_nanos() }
}

/// Default priority of a rule.
pub const DEFAULT_PRIORITY: i32 = 500;

/// The metadata of a rule: identity, version, scope, priority and enforcement.
#[derive(Debug)]
pub struct RuleMetadata {
    /// Identity, kept across versions
    pub rule_id: RuleId,
    /// Version number, raised on every update
    pub version: u64,
    /// Bundle the rule belongs to, if any
    pub bundle_id: Option<String>,
    /// Who signed the rule
    pub signer: String,
    /// When this version was made
    pub created_at: UtcTimestamp,
    /// Where the rule applies
    pub scope: RuleScope,
    /// Higher is evaluated first
    pub priority: i32,
    /// Lifecycle state
    pub state: RuleState,
    /// What the rule does
    pub enforcement_class: EnforcementClass,
    /// How strictly it is enforced
    pub enforcement_mode: EnforcementMode,
}

impl Clone for RuleMetadata {
    /// A copy of the metadata.
    fn clone(&self) -> (r: Self)
        ensures
            r.rule_id == self.rule_id,
            r.version == self.version,
            r.bundle_id == self.bundle_id,
            r.signer == self.signer,
            r.created_at == self.created_at,
            r.scope.is_global == self.scope.is_global,
            agent_texts(r.scope.agent_ids@) == agent_texts(self.scope.agent_ids@),
            flow_texts(r.scope.flow_ids@) == flow_texts(self.scope.flow_ids@),
            r.priority == self.priority,
            r.state == self.state,
            r.enforcement_class == self.enforcement_class,
            r.enforcement_mode == self.enforcement_mode,
    {
        RuleMetadata {
            rule_id: self.rule_id,
            version: self.version,
            bundle_id: self.bundle_id.clone(),
            signer: self.signer.clone(),
            created_at: self.created_at,
            scope: self.scope.duplicate(),
            priority: self.priority,
            state: self.state,
            enforcement_class: self.enforcement_class,
            enforcement_mode: self.enforcement_mode,
        }
    }
}

/// The view of an optional string.
pub open spec fn opt_text(o: Option<String>) -> Option<Seq<char>> {
    match o {
        Some(s) => Some(s@),
        None => None,
    }
}

/// The one-line description of a rule's metadata.
pub open spec fn describe_text(
    id: u128,
    version: u64,
    state: RuleState,
    mode: EnforcementMode,
    class: EnforcementClass,
    priority: i32,
    agents: nat,
    flows: nat,
) -> Seq<char> {
    "Rule[ID: "@ + uuid_text(id) + ", Ver: "@ + decimal(version as nat) + ", State: "@ + state_text(state)
        + ", Mode: "@ + mode_text(mode) + ", Class: "@ + class_text(class)
        + ", \n                Priority: "@ + signed_decimal(priority as int) + ", Scope: "@
        + decimal(agents) + " agents, "@ + decimal(flows) + " flows]"@
}

impl RuleMetadata {
    /// Metadata for a new rule: a fresh id, version 1, staged, blocking class, priority 500.
    pub fn new(signer: String, scope: RuleScope, mode: EnforcementMode) -> (r: Self)
        ensures
            r.version == 1,
            r.bundle_id is None,
            r.signer@ == signer@,
            r.scope == scope,
            r.priority == DEFAULT_PRIORITY,
            r.state == RuleState::Staged,
            r.enforcement_class == EnforcementClass::BlockDeny,
            r.enforcement_mode == mode,
    {
        RuleMetadata {
            rule_id: RuleId::new(),
            version: 1,
            bundle_id: None,
            signer,
            created_at: utc_now(),
            scope,
            priority: DEFAULT_PRIORITY,
            state: RuleState::Staged,
            enforcement_class: EnforcementClass::BlockDeny,
            enforcement_mode: mode,
        }
    }

    /// A builder with nothing set.
    pub fn builder() -> (r: RuleMetadataBuilder)
        ensures
            r.is_empty(),
    {
        RuleMetadataBuilder::new()
    }

    /// The rule id.
    pub fn rule_id(&self) -> (r: &RuleId)
        ensures
            *r == self.rule_id,
    {
        &self.rule_id
    }

    /// The version number.
    pub fn version(&self) -> (r: u64)
        ensures
            r == self.version,
    {
        self.version
    }

    /// The bundle id, if any.
    pub fn bundle_id(&self) -> (r: Option<&str>)
        ensures
            match r {
                Some(b) => self.bundle_id matches Some(s) && b@ == s@,
                None => self.bundle_id is None,
            },
    {
        match &self.bundle_id {
            Some(b) => Some(b.as_str()),
            None => None,
        }
    }

    /// The signer.
    pub fn signer(&self) -> (r: &str)
        ensures
            r@ == self.signer@,
    {
        self.signer.as_str()
    }

    /// When this version was made.
    pub fn created_at(&self) -> (r: &UtcTimestamp)
        ensures
            *r == self.created_at,
    {
        &self.created_at
    }

    /// The scope.
    pub fn scope(&self) -> (r: &RuleScope)
        ensures
            *r == self.scope,
    {
        &self.scope
    }

    /// The priority.
    pub fn priority(&self) -> (r: i32)
        ensures
            r == self.priority,
    {
        self.priority
    }

    /// The lifecycle state.
    pub fn state(&self) -> (r: RuleState)
        ensures
            r == self.state,
    {
        self.state
    }

    /// The enforcement class.
    pub fn enforcement_class(&self) -> (r: EnforcementClass)
        ensures
            r == self.enforcement_class,
    {
        self.enforcement_class
    }

    /// The enforcement mode.
    pub fn enforcement_mode(&self) -> (r: EnforcementMode)
        ensures
            r == self.enforcement_mode,
    {
        self.enforcement_mode
    }

    /// Makes the rule active; a revoked rule stays revoked, as revocation is permanent.
    pub fn activate(&mut self)
        ensures
            old(self).state == RuleState::Revoked ==> *final(self) == *old(self),
            old(self).state != RuleState::Revoked ==> *final(self) == (RuleMetadata {
                state: RuleState::Active,
                ..*old(self)
            }),
    {
        if self.state != RuleState::Revoked {
            self.state = RuleState::Active;
        }
    }

    /// Pauses the rule; a revoked rule stays revoked, as revocation is permanent.
    pub fn pause(&mut self)
        ensures
            old(self).state == RuleState::Revoked ==> *final(self) == *old(self),
            old(self).state != RuleState::Revoked ==> *final(self) == (RuleMetadata {
                state: RuleState::Paused,
                ..*old(self)
            }),
    {
        if self.state != RuleState::Revoked {
            self.state = RuleState::Paused;
        }
    }

    /// Revokes the rule for good.
    pub fn revoke(&mut self)
        ensures
            *final(self) == (RuleMetadata { state: RuleState::Revoked, ..*old(self) }),
    {
        self.state = RuleState::Revoked;
    }

    /// Whether the rule is active.
    pub fn is_active(&self) -> (r: bool)
        ensures
            r == (self.state == RuleState::Active),
    {
        self.state.is_active()
    }

    /// Whether the rule is evaluated: staged or active.
    pub fn is_evaluable(&self) -> (r: bool)
        ensures
            r == (self.state == RuleState::Staged || self.state == RuleState::Active),
    {
        self.state.is_evaluable()
    }

    /// The next version of the rule: same id, bundle, scope, priority, class and mode,
    /// the version one higher, staged, signed by `signer`, made now.
    pub fn new_version(&self, signer: String) -> (r: Self)
        requires
            self.version < u64::MAX,
        ensures
            r.rule_id == self.rule_id,
            r.version == self.version + 1,
            opt_text(r.bundle_id) == opt_text(self.bundle_id),
            r.signer@ == signer@,
            r.scope.is_global == self.scope.is_global,
            agent_texts(r.scope.agent_ids@) == agent_texts(self.scope.agent_ids@),
            flow_texts(r.scope.flow_ids@) == flow_texts(self.scope.flow_ids@),
            agent_texts(r.scope.dest_agent_ids@) == agent_texts(self.scope.dest_agent_ids@),
            r.scope.payload_dtypes@ == self.scope.payload_dtypes@,
            r.priority == self.priority,
            r.state == RuleState::Staged,
            r.enforcement_class == self.enforcement_class,
            r.enforcement_mode == self.enforcement_mode,
    {
        let bundle_id = match &self.bundle_id {
            Some(b) => Some(b.clone()),
            None => None,
        };
        RuleMetadata {
            rule_id: self.rule_id,
            version: self.version + 1,
            bundle_id,
            signer,
            created_at: utc_now(),
            scope: self.scope.duplicate(),
            priority: self.priority,
            state: RuleState::Staged,
            enforcement_class: self.enforcement_class,
            enforcement_mode: self.enforcement_mode,
        }
    }

    /// Whether the rule's scope matches the agent or the flow.
    pub fn matches_scope(&self, agent_id: Option<&AgentId>, flow_id: Option<&FlowId>) -> (r: bool)
        ensures
            r == self.scope.spec_matches(
                match agent_id {
                    Some(a) => Some(a@),
                    None => None,
                },
                match flow_id {
                    Some(f) => Some(f@),
                    None => None,
                },
            ),
    {
        self.scope.matches(agent_id, flow_id)
    }

    /// A one-line description of id, version, state, mode, class, priority and scope sizes.
    pub fn describe(&self) -> (r: String)
        ensures
            r@ == describe_text(
                self.rule_id.value(),
                self.version,
                self.state,
                self.enforcement_mode,
                self.enforcement_class,
                self.priority,
                self.scope.agent_ids@.len(),
                self.scope.flow_ids@.len(),
            ),
    {
        let mut s = String::new();
        s.append("Rule[ID: ");
        let id = self.rule_id.as_str();
        s.append(id.as_str());
        s.append(", Ver: ");
        push_decimal(&mut s, self.version);
        s.append(", State: ");
        s.append(self.state.display_name());
        s.append(", Mode: ");
        s.append(self.enforcement_mode.display_name());
        s.append(", Class: ");
        s.append(self.enforcement_class.display_name());
        s.append(", \n                Priority: ");
        push_signed_decimal(&mut s, self.priority as i64);
        s.append(", Scope: ");
        push_decimal(&mut s, self.scope.agent_ids.len() as u64);
        s.append(" agents, ");
        push_decimal(&mut s, self.scope.flow_ids.len() as u64);
        s.append(" flows]");
        proof {
            assert(s@ =~= describe_text(
                self.rule_id.value(),
                self.version,
                self.state,
                self.enforcement_mode,
                self.enforcement_class,
                self.priority,
                self.scope.agent_ids@.len(),
                self.scope.flow_ids@.len(),
            ));
        }
        s
    }
}

/// Step-by-step construction of rule metadata; unset fields take defaults at `build`.
#[derive(Debug)]
pub struct RuleMetadataBuilder {
    /// Rule id (default: fresh)
    pub rule_id: Option<RuleId>,
    /// Version (default 1)
    pub version: Option<u64>,
    /// Bundle id (default none)
    pub bundle_id: Option<String>,
    /// Signer (required)
    pub signer: Option<String>,
    /// Creation time (default: now)
    pub created_at: Option<UtcTimestamp>,
    /// Scope (default: empty)
    pub scope: Option<RuleScope>,
    /// Priority (default 500)
    pub priority: Option<i32>,
    /// State (default staged)
    pub state: Option<RuleState>,
    /// Class (default blocking)
    pub enforcement_class: Option<EnforcementClass>,
    /// Mode (default hard)
    pub enforcement_mode: Option<EnforcementMode>,
}

impl RuleMetadataBuilder {
    /// No field set.
    pub open spec fn is_empty(&self) -> bool {
        &&& self.rule_id is None
        &&& self.version is None
        &&& self.bundle_id is None
        &&& self.signer is None
        &&& self.created_at is None
        &&& self.scope is None
        &&& self.priority is None
        &&& self.state is None
        &&& self.enforcement_class is None
        &&& self.enforcement_mode is None
    }

    /// A builder with nothing set.
    pub fn new() -> (r: Self)
        ensures
            r.is_empty(),
    {
        RuleMetadataBuilder {
            rule_id: None,
            version: None,
            bundle_id: None,
            signer: None,
            created_at: None,
            scope: None,
            priority: None,
            state: None,
            enforcement_class: None,
            enforcement_mode: None,
        }
    }

    /// Sets the rule id.
    pub fn rule_id(self, rule_id: RuleId) -> (r: Self)
        ensures
            r == (RuleMetadataBuilder { rule_id: Some(rule_id), ..self }),
    {
        RuleMetadataBuilder { rule_id: Some(rule_id), ..self }
    }

    /// Sets the version.
    pub fn version(self, version: u64) -> (r: Self)
        ensures
            r == (RuleMetadataBuilder { version: Some(version), ..self }),
    {
        RuleMetadataBuilder { version: Some(version), ..self }
    }

    /// Sets the bundle id.
    pub fn bundle_id(self, bundle_id: String) -> (r: Self)
        ensures
            r == (RuleMetadataBuilder { bundle_id: Some(bundle_id), ..self }),
    {
        RuleMetadataBuilder { bundle_id: Some(bundle_id), ..self }
    }

    /// Sets the signer.
    pub fn signer(self, signer: String) -> (r: Self)
        ensures
            r == (RuleMetadataBuilder { signer: Some(signer), ..self }),
    {
        RuleMetadataBuilder { signer: Some(signer), ..self }
    }

    /// Sets the creation time.
    pub fn created_at(self, created_at: UtcTimestamp) -> (r: Self)
        ensures
            r == (RuleMetadataBuilder { created_at: Some(created_at), ..self }),
    {
        RuleMetadataBuilder { created_at: Some(created_at), ..self }
    }

    /// Sets the scope.
    pub fn scope(self, scope: RuleScope) -> (r: Self)
        ensures
            r == (RuleMetadataBuilder { scope: Some(scope), ..self }),
    {
        RuleMetadataBuilder { scope: Some(scope), ..self }
    }

    /// Sets the priority.
    pub fn priority(self, priority: i32) -> (r: Self)
        ensures
            r == (RuleMetadataBuilder { priority: Some(priority), ..self }),
    {
        RuleMetadataBuilder { priority: Some(priority), ..self }
    }

    /// Sets the state.
    pub fn state(self, state: RuleState) -> (r: Self)
        ensures
            r == (RuleMetadataBuilder { state: Some(state), ..self }),
    {
        RuleMetadataBuilder { state: Some(state), ..self }
    }

    /// Sets the enforcement class.
    pub fn enforcement_class(self, enforcement_class: EnforcementClass) -> (r: Self)
        ensures
            r == (RuleMetadataBuilder { enforcement_class: Some(enforcement_class), ..self }),
    {
        RuleMetadataBuilder { enforcement_class: Some(enforcement_class), ..self }
    }

    /// Sets the enforcement mode.
    pub fn enforcement_mode(self, enforcement_mode: EnforcementMode) -> (r: Self)
        ensures
            r == (RuleMetadataBuilder { enforcement_mode: Some(enforcement_mode), ..self }),
    {
        RuleMetadataBuilder { enforcement_mode: Some(enforcement_mode), ..self }
    }

    /// The metadata: each set field as given, each unset one at its default. The signer
    /// must be set.
    pub fn build(self) -> (r: RuleMetadata)
        requires
            self.signer is Some,
        ensures
            self.rule_id matches Some(id) ==> r.rule_id == id,
            r.version == (match self.version {
                Some(v) => v,
                None => 1,
            }),
            r.bundle_id == self.bundle_id,
            r.signer == self.signer->0,
            self.created_at matches Some(t) ==> r.created_at == t,
            match self.scope {
                Some(sc) => r.scope == sc,
                None => !r.scope.is_global && r.scope.agent_ids@.len() == 0 && r.scope.flow_ids@.len() == 0
                    && r.scope.dest_agent_ids@.len() == 0 && r.scope.payload_dtypes@.len() == 0,
            },
            r.priority == (match self.priority {
                Some(p) => p,
                None => DEFAULT_PRIORITY,
            }),
            r.state == (match self.state {
                Some(s) => s,
                None => RuleState::Staged,
            }),
            r.enforcement_class == (match self.enforcement_class {
                Some(c) => c,
                None => EnforcementClass::BlockDeny,
            }),
            r.enforcement_mode == (match self.enforcement_mode {
                Some(m) => m,
                None => EnforcementMode::Hard,
            }),
    {
        let rule_id = match self.rule_id {
            Some(id) => id,
            None => RuleId::new(),
        };
        let created_at = match self.created_at {
            Some(t) => t,
            None => utc_now(),
        };
        let scope = match self.scope {
            Some(sc) => sc,
            None => RuleScope::new(),
        };
        let signer = match self.signer {
            Some(s) => s,
            None => String::new(),
        };
        RuleMetadata {
            rule_id,
            version: match self.version {
                Some(v) => v,
                None => 1,
            },
            bundle_id: self.bundle_id,
            signer,
            created_at,
            scope,
            priority: match self.priority {
                Some(p) => p,
                None => DEFAULT_PRIORITY,
            },
            state: match self.state {
                Some(s) => s,
                None => RuleState::Staged,
            },
            enforcement_class: match self.enforcement_class {
                Some(c) => c,
                None => EnforcementClass::BlockDeny,
            },
            enforcement_mode: match self.enforcement_mode {
                Some(m) => m,
                None => EnforcementMode::Hard,
            },
        }
    }
}

impl Default for RuleMetadataBuilder {
    /// A builder with nothing set.
    fn default() -> (r: Self)
        ensures
            r.is_empty(),
    {
        RuleMetadataBuilder::new()
    }
}

} // verus!

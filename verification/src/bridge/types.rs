//! Layer and family identifiers, rule scopes, actions and table metadata.
use vstd::prelude::*;
use crate::duration::unix_now_nanos;
use crate::text::{str_eq, strs_view};

verus! {

/// The seven enforcement layers of the data plane, in evaluation order.
#[derive(Debug, Clone, Copy, PartialEq, Eq, Hash, Structural)]
pub enum LayerId {
    /// L0: system level controls
    L0System,
    /// L1: input validation
    L1Input,
    /// L2: prompt assembly and planning
    L2Planner,
    /// L3: model input/output controls
    L3ModelIO,
    /// L4: tool invocation gateway
    L4ToolGateway,
    /// L5: retrieval controls
    L5RAG,
    /// L6: output filtering and audit
    L6Egress,
}

/// The number of a layer, 0 through 6.
pub open spec fn layer_number(l: LayerId) -> u8 {
    match l {
        LayerId::L0System => 0,
        LayerId::L1Input => 1,
        LayerId::L2Planner => 2,
        LayerId::L3ModelIO => 3,
        LayerId::L4ToolGateway => 4,
        LayerId::L5RAG => 5,
        LayerId::L6Egress => 6,
    }
}

/// The layers in evaluation order.
pub open spec fn all_layers() -> Seq<LayerId> {
    seq![
        LayerId::L0System,
        LayerId::L1Input,
        LayerId::L2Planner,
        LayerId::L3ModelIO,
        LayerId::L4ToolGateway,
        LayerId::L5RAG,
        LayerId::L6Egress,
    ]
}

impl LayerId {
    /// All layer ids in evaluation order.
    pub fn all() -> (r: Vec<LayerId>)
        ensures
            r@ == all_layers(),
    {
        let r = vec![
            LayerId::L0System,
            LayerId::L1Input,
            LayerId::L2Planner,
            LayerId::L3ModelIO,
            LayerId::L4ToolGateway,
            LayerId::L5RAG,
            LayerId::L6Egress,
        ];
        assert(r@ =~= all_layers());
        r
    }

    /// The numeric layer number.
    pub fn layer_num(&self) -> (r: u8)
        ensures
            r == layer_number(*self),
    {
        match self {
            LayerId::L0System => 0,
            LayerId::L1Input => 1,
            LayerId::L2Planner => 2,
            LayerId::L3ModelIO => 3,
            LayerId::L4ToolGateway => 4,
            LayerId::L5RAG => 5,
            LayerId::L6Egress => 6,
        }
    }

    /// The display name of the layer, such as `L0_System`.
    pub fn display_name(&self) -> (r: &'static str)
        ensures
            r@ == layer_display(*self),
    {
        match self {
            LayerId::L0System => "L0_System",
            LayerId::L1Input => "L1_Input",
            LayerId::L2Planner => "L2_Planner",
            LayerId::L3ModelIO => "L3_ModelIO",
            LayerId::L4ToolGateway => "L4_ToolGateway",
            LayerId::L5RAG => "L5_RAG",
            LayerId::L6Egress => "L6_Egress",
        }
    }
}

/// The display name of a layer.
pub open spec fn layer_display(l: LayerId) -> Seq<char> {
    match l {
        LayerId::L0System => "L0_System"@,
        LayerId::L1Input => "L1_Input"@,
        LayerId::L2Planner => "L2_Planner"@,
        LayerId::L3ModelIO => "L3_ModelIO"@,
        LayerId::L4ToolGateway => "L4_ToolGateway"@,
        LayerId::L5RAG => "L5_RAG"@,
        LayerId::L6Egress => "L6_Egress"@,
    }
}

/// The fourteen rule families, two per layer.
#[derive(Debug, Clone, Copy, PartialEq, Eq, Hash, Structural)]
pub enum RuleFamilyId {
    NetworkEgress,
    SidecarSpawn,
    InputSchema,
    InputSanitize,
    PromptAssembly,
    PromptLength,
    ModelOutputScan,
    ModelOutputEscalate,
    ToolWhitelist,
    ToolParamConstraint,
    RAGSource,
    RAGDocSensitivity,
    OutputPII,
    OutputAudit,
}

/// All families, grouped by layer in layer order.
pub open spec fn all_families() -> Seq<RuleFamilyId> {
    seq![
        RuleFamilyId::NetworkEgress,
        RuleFamilyId::SidecarSpawn,
        RuleFamilyId::InputSchema,
        RuleFamilyId::InputSanitize,
        RuleFamilyId::PromptAssembly,
        RuleFamilyId::PromptLength,
        RuleFamilyId::ModelOutputScan,
        RuleFamilyId::ModelOutputEscalate,
        RuleFamilyId::ToolWhitelist,
        RuleFamilyId::ToolParamConstraint,
        RuleFamilyId::RAGSource,
        RuleFamilyId::RAGDocSensitivity,
        RuleFamilyId::OutputPII,
        RuleFamilyId::OutputAudit,
    ]
}

/// The layer a family belongs to.
pub open spec fn family_layer(f: RuleFamilyId) -> LayerId {
    match f {
        RuleFamilyId::NetworkEgress | RuleFamilyId::SidecarSpawn => LayerId::L0System,
        RuleFamilyId::InputSchema | RuleFamilyId::InputSanitize => LayerId::L1Input,
        RuleFamilyId::PromptAssembly | RuleFamilyId::PromptLength => LayerId::L2Planner,
        RuleFamilyId::ModelOutputScan | RuleFamilyId::ModelOutputEscalate => LayerId::L3ModelIO,
        RuleFamilyId::ToolWhitelist | RuleFamilyId::ToolParamConstraint => LayerId::L4ToolGateway,
        RuleFamilyId::RAGSource | RuleFamilyId::RAGDocSensitivity => LayerId::L5RAG,
        RuleFamilyId::OutputPII | RuleFamilyId::OutputAudit => LayerId::L6Egress,
    }
}

/// The identifier string of a family.
pub open spec fn family_key(f: RuleFamilyId) -> Seq<char> {
    match f {
        RuleFamilyId::NetworkEgress => "net_egress"@,
        RuleFamilyId::SidecarSpawn => "sidecar_spawn"@,
        RuleFamilyId::InputSchema => "input_schema"@,
        RuleFamilyId::InputSanitize => "input_sanitize"@,
        RuleFamilyId::PromptAssembly => "prompt_assembly"@,
        RuleFamilyId::PromptLength => "prompt_length"@,
        RuleFamilyId::ModelOutputScan => "model_output_scan"@,
        RuleFamilyId::ModelOutputEscalate => "model_output_escalate"@,
        RuleFamilyId::ToolWhitelist => "tool_whitelist"@,
        RuleFamilyId::ToolParamConstraint => "tool_param_constraint"@,
        RuleFamilyId::RAGSource => "rag_source"@,
        RuleFamilyId::RAGDocSensitivity => "rag_doc_sensitivity"@,
        RuleFamilyId::OutputPII => "output_pii"@,
        RuleFamilyId::OutputAudit => "output_audit"@,
    }
}

/// The human-readable description of a family.
pub open spec fn family_description(f: RuleFamilyId) -> Seq<char> {
    match f {
        RuleFamilyId::NetworkEgress => "Control which network destinations an agent or sidecar can contact"@,
        RuleFamilyId::SidecarSpawn => "Restrict which sidecars an agent may launch"@,
        RuleFamilyId::InputSchema => "Enforce payload schema, size and type"@,
        RuleFamilyId::InputSanitize => "Sanitize and validate input data"@,
        RuleFamilyId::PromptAssembly => "Allow only approved context sources during prompt building"@,
        RuleFamilyId::PromptLength => "Prevent runaway token count in composed prompt"@,
        RuleFamilyId::ModelOutputScan => "Scan model output for PII, jailbreak or sensitive content"@,
        RuleFamilyId::ModelOutputEscalate => "Divert uncertain responses to review"@,
        RuleFamilyId::ToolWhitelist => "Allow only specific tools for an agent"@,
        RuleFamilyId::ToolParamConstraint => "Enforce parameter type and value bounds for tool calls"@,
        RuleFamilyId::RAGSource => "Restrict retriever to specific sources or indices"@,
        RuleFamilyId::RAGDocSensitivity => "Block sensitive or classified docs from being injected"@,
        RuleFamilyId::OutputPII => "Detect and redact/deny PII before response leaves system"@,
        RuleFamilyId::OutputAudit => "Emit decision record for final user-facing outputs"@,
    }
}

impl RuleFamilyId {
    /// All family ids, grouped by layer in layer order.
    pub fn all() -> (r: Vec<RuleFamilyId>)
        ensures
            r@ == all_families(),
    {
        let r = vec![
            RuleFamilyId::NetworkEgress,
            RuleFamilyId::SidecarSpawn,
            RuleFamilyId::InputSchema,
            RuleFamilyId::InputSanitize,
            RuleFamilyId::PromptAssembly,
            RuleFamilyId::PromptLength,
            RuleFamilyId::ModelOutputScan,
            RuleFamilyId::ModelOutputEscalate,
            RuleFamilyId::ToolWhitelist,
            RuleFamilyId::ToolParamConstraint,
            RuleFamilyId::RAGSource,
            RuleFamilyId::RAGDocSensitivity,
            RuleFamilyId::OutputPII,
            RuleFamilyId::OutputAudit,
        ];
        assert(r@ =~= all_families());
        r
    }

    /// The parent layer of this family.
    pub fn layer(&self) -> (r: LayerId)
        ensures
            r == family_layer(*self),
    {
        match self {
            RuleFamilyId::NetworkEgress | RuleFamilyId::SidecarSpawn => LayerId::L0System,
            RuleFamilyId::InputSchema | RuleFamilyId::InputSanitize => LayerId::L1Input,
            RuleFamilyId::PromptAssembly | RuleFamilyId::PromptLength => LayerId::L2Planner,
            RuleFamilyId::ModelOutputScan | RuleFamilyId::ModelOutputEscalate => LayerId::L3ModelIO,
            RuleFamilyId::ToolWhitelist | RuleFamilyId::ToolParamConstraint => {
                LayerId::L4ToolGateway
            },
            RuleFamilyId::RAGSource | RuleFamilyId::RAGDocSensitivity => LayerId::L5RAG,
            RuleFamilyId::OutputPII | RuleFamilyId::OutputAudit => LayerId::L6Egress,
        }
    }

    /// The family identifier string, such as `net_egress`; also its display form.
    pub fn family_id(&self) -> (r: &'static str)
        ensures
            r@ == family_key(*self),
    {
        match self {
            RuleFamilyId::NetworkEgress => "net_egress",
            RuleFamilyId::SidecarSpawn => "sidecar_spawn",
            RuleFamilyId::InputSchema => "input_schema",
            RuleFamilyId::InputSanitize => "input_sanitize",
            RuleFamilyId::PromptAssembly => "prompt_assembly",
            RuleFamilyId::PromptLength => "prompt_length",
            RuleFamilyId::ModelOutputScan => "model_output_scan",
            RuleFamilyId::ModelOutputEscalate => "model_output_escalate",
            RuleFamilyId::ToolWhitelist => "tool_whitelist",
            RuleFamilyId::ToolParamConstraint => "tool_param_constraint",
            RuleFamilyId::RAGSource => "rag_source",
            RuleFamilyId::RAGDocSensitivity => "rag_doc_sensitivity",
            RuleFamilyId::OutputPII => "output_pii",
            RuleFamilyId::OutputAudit => "output_audit",
        }
    }

    /// A human-readable description of the family.
    pub fn description(&self) -> (r: &'static str)
        ensures
            r@ == family_description(*self),
    {
        match self {
            RuleFamilyId::NetworkEgress => {
                "Control which network destinations an agent or sidecar can contact"
            },
            RuleFamilyId::SidecarSpawn => "Restrict which sidecars an agent may launch",
            RuleFamilyId::InputSchema => "Enforce payload schema, size and type",
            RuleFamilyId::InputSanitize => "Sanitize and validate input data",
            RuleFamilyId::PromptAssembly => {
                "Allow only approved context sources during prompt building"
            },
            RuleFamilyId::PromptLength => "Prevent runaway token count in composed prompt",
            RuleFamilyId::ModelOutputScan => {
                "Scan model output for PII, jailbreak or sensitive content"
            },
            RuleFamilyId::ModelOutputEscalate => "Divert uncertain responses to review",
            RuleFamilyId::ToolWhitelist => "Allow only specific tools for an agent",
            RuleFamilyId::ToolParamConstraint => {
                "Enforce parameter type and value bounds for tool calls"
            },
            RuleFamilyId::RAGSource => "Restrict retriever to specific sources or indices",
            RuleFamilyId::RAGDocSensitivity => {
                "Block sensitive or classified docs from being injected"
            },
            RuleFamilyId::OutputPII => "Detect and redact/deny PII before response leaves system",
            RuleFamilyId::OutputAudit => "Emit decision record for final user-facing outputs",
        }
    }
}

/// Which agents a rule applies to, with free-form tags.
#[derive(Debug, Clone)]
pub struct RuleScope {
    /// Agent ids this rule applies to.
    pub agent_ids: Vec<String>,
    /// Tags as key/value pairs; a key occurs at most once.
    pub tags: Vec<(String, String)>,
    /// Whether the rule applies to every agent.
    pub is_global: bool,
}

/// The keys of a tag list.
pub open spec fn tag_keys(tags: Seq<(String, String)>) -> Seq<Seq<char>> {
    tags.map_values(|t: (String, String)| t.0@)
}

/// The tag list after setting `key` to `value`: an existing key keeps its place and
/// takes the new value, a new key is appended.
pub open spec fn tags_set(tags: Seq<(Seq<char>, Seq<char>)>, key: Seq<char>, value: Seq<char>) -> Seq<
    (Seq<char>, Seq<char>),
> {
    if exists|i: int| 0 <= i < tags.len() && #[trigger] tags[i].0 == key {
        Seq::new(tags.len(), |j: int| if tags[j].0 == key { (key, value) } else { tags[j] })
    } else {
        tags.push((key, value))
    }
}

/// The characters of each tag.
pub open spec fn tags_view(tags: Seq<(String, String)>) -> Seq<(Seq<char>, Seq<char>)> {
    tags.map_values(|t: (String, String)| (t.0@, t.1@))
}

impl RuleScope {
    /// The agents of the scope, by their characters.
    pub open spec fn agents(&self) -> Seq<Seq<char>> {
        strs_view(self.agent_ids@)
    }

    /// Whether the scope applies to an agent.
    pub open spec fn applies(&self, agent: Seq<char>) -> bool {
        self.is_global || self.agents().contains(agent)
    }

    /// Tag keys are distinct.
    pub open spec fn tags_distinct(&self) -> bool {
        tag_keys(self.tags@).no_duplicates()
    }

    /// A global scope with no agents and no tags.
    pub fn global() -> (r: Self)
        ensures
            r.is_global,
            r.agent_ids@.len() == 0,
            r.tags@.len() == 0,
    {
        RuleScope { agent_ids: Vec::new(), tags: Vec::new(), is_global: true }
    }

    /// A scope for the given agents.
    pub fn for_agents(agent_ids: Vec<String>) -> (r: Self)
        ensures
            !r.is_global,
            r.agent_ids@ == agent_ids@,
            r.tags@.len() == 0,
    {
        RuleScope { agent_ids, tags: Vec::new(), is_global: false }
    }

    /// A scope for one agent.
    pub fn for_agent(agent_id: String) -> (r: Self)
        ensures
            !r.is_global,
            r.agent_ids@ == seq![agent_id],
            r.tags@.len() == 0,
    {
        let mut agent_ids = Vec::new();
        agent_ids.push(agent_id);
        RuleScope { agent_ids, tags: Vec::new(), is_global: false }
    }

    /// Whether this scope applies to the agent: it is global or lists the agent.
    pub fn applies_to(&self, agent_id: &str) -> (r: bool)
        ensures
            r == self.applies(agent_id@),
    {
        if self.is_global {
            return true;
        }
        let n = self.agent_ids.len();
        let mut i: usize = 0;
        while i < n
            invariant
                n == self.agent_ids@.len(),
                i <= n,
                forall|j: int| 0 <= j < i ==> self.agent_ids@[j]@ != agent_id@,
            decreases n - i,
        {
            if str_eq(self.agent_ids[i].as_str(), agent_id) {
                assert(self.agents()[i as int] == agent_id@);
                return true;
            }
            i = i + 1;
        }
        assert(!self.agents().contains(agent_id@)) by {
            if self.agents().contains(agent_id@) {
                let k = choose|k: int| 0 <= k < self.agents().len() && self.agents()[k] == agent_id@;
                assert(self.agent_ids@[k]@ == agent_id@);
            }
        }
        false
    }

    /// Sets a tag, replacing the value of an existing key.
    pub fn with_tag(self, key: String, value: String) -> (r: Self)
        requires
            self.tags_distinct(),
        ensures
            r.is_global == self.is_global,
            r.agent_ids@ == self.agent_ids@,
            tags_view(r.tags@) =~= tags_set(tags_view(self.tags@), key@, value@),
            r.tags_distinct(),
    {
        let RuleScope { agent_ids, mut tags, is_global } = self;
        let n = tags.len();
        let ghost old_tags = tags@;
        let mut i: usize = 0;
        while i < n
            invariant
                n == tags@.len(),
                tags@ == old_tags,
                agent_ids@ == self.agent_ids@,
                old_tags == self.tags@,
                is_global == self.is_global,
                tag_keys(old_tags).no_duplicates(),
                i <= n,
                forall|j: int| 0 <= j < i ==> tags@[j].0@ != key@,
            decreases n - i,
        {
            if str_eq(tags[i].0.as_str(), key.as_str()) {
                let ghost kv = key@;
                let ghost vv = value@;
                tags.set(i, (key, value));
                proof {
                    let tv = tags_view(old_tags);
                    assert(tv[i as int].0 == kv);
                    assert forall|w: int| 0 <= w < tv.len() && w != i implies tv[w].0 != kv by {
                        assert(tag_keys(old_tags)[w] == tv[w].0);
                        assert(tag_keys(old_tags)[i as int] == tv[i as int].0);
                    }
                    assert(tags_view(tags@) =~= tags_set(tv, kv, vv));
                    assert(tag_keys(tags@) =~= tag_keys(old_tags));
                }
                return RuleScope { agent_ids, tags, is_global };
            }
            i = i + 1;
        }
        let ghost kv = key@;
        let ghost vv = value@;
        tags.push((key, value));
        proof {
            let tv = tags_view(old_tags);
            assert(!(exists|w: int| 0 <= w < tv.len() && #[trigger] tv[w].0 == kv));
            assert(tags_view(tags@) =~= tv.push((kv, vv)));
            assert(tag_keys(tags@) =~= tag_keys(old_tags).push(kv));
        }
        RuleScope { agent_ids, tags, is_global }
    }
}

impl Default for RuleScope {
    /// The global scope.
    fn default() -> (r: Self)
        ensures
            r.is_global,
            r.agent_ids@.len() == 0,
            r.tags@.len() == 0,
    {
        RuleScope::global()
    }
}

/// Actions a rule can take.
#[derive(Debug, Clone, Copy, PartialEq, Eq, Structural)]
pub enum RuleAction {
    /// Allow the operation
    Allow,
    /// Block the operation
    Deny,
    /// Redirect to another target
    Redirect,
    /// Modify the payload
    Rewrite,
    /// Remove sensitive content
    Redact,
    /// Send to human review
    Escalate,
    /// Cut down to fit constraints
    Truncate,
    /// Log without enforcing
    Audit,
    /// Drop context from memory
    DropContext,
}

/// The display form of an action.
pub open spec fn action_display(a: RuleAction) -> Seq<char> {
    match a {
        RuleAction::Allow => "ALLOW"@,
        RuleAction::Deny => "DENY"@,
        RuleAction::Redirect => "REDIRECT"@,
        RuleAction::Rewrite => "REWRITE"@,
        RuleAction::Redact => "REDACT"@,
        RuleAction::Escalate => "ESCALATE"@,
        RuleAction::Truncate => "TRUNCATE"@,
        RuleAction::Audit => "AUDIT"@,
        RuleAction::DropContext => "DROP_CONTEXT"@,
    }
}

impl RuleAction {
    /// The display form of the action, such as `DROP_CONTEXT`.
    pub fn display_name(&self) -> (r: &'static str)
        ensures
            r@ == action_display(*self),
    {
        match self {
            RuleAction::Allow => "ALLOW",
            RuleAction::Deny => "DENY",
            RuleAction::Redirect => "REDIRECT",
            RuleAction::Rewrite => "REWRITE",
            RuleAction::Redact => "REDACT",
            RuleAction::Escalate => "ESCALATE",
            RuleAction::Truncate => "TRUNCATE",
            RuleAction::Audit => "AUDIT",
            RuleAction::DropContext => "DROP_CONTEXT",
        }
    }
}

/// Network protocols for egress rules.
#[derive(Debug, Clone, Copy, PartialEq, Eq, Structural)]
pub enum NetworkProtocol {
    TCP,
    UDP,
    HTTP,
    HTTPS,
}

impl Default for NetworkProtocol {
    /// HTTPS.
    fn default() -> (r: Self)
        ensures
            r == NetworkProtocol::HTTPS,
    {
        NetworkProtocol::HTTPS
    }
}

/// Parameter types for tool constraints.
#[derive(Debug, Clone, Copy, PartialEq, Eq, Structural)]
pub enum ParamType {
    String,
    Int,
    Float,
    Bool,
}

/// Counters kept by a rule family table.
#[derive(Debug, Clone)]
pub struct TableMetadata {
    /// Rules in the table
    pub rule_count: usize,
    /// Global rules
    pub global_count: usize,
    /// Agent-scoped rules
    pub scoped_count: usize,
    /// Time of the last update, in milliseconds since the epoch
    pub last_updated: u64,
    /// Schema version of the family
    pub schema_version: u32,
}

impl TableMetadata {
    /// Metadata of an empty table.
    pub fn new(schema_version: u32) -> (r: Self)
        ensures
            r.rule_count == 0,
            r.global_count == 0,
            r.scoped_count == 0,
            r.last_updated == 0,
            r.schema_version == schema_version,
    {
        TableMetadata {
            rule_count: 0,
            global_count: 0,
            scoped_count: 0,
            last_updated: 0,
            schema_version,
        }
    }

    /// A copy of the counters.
    pub fn snapshot(&self) -> (r: Self)
        ensures
            r == *self,
    {
        TableMetadata {
            rule_count: self.rule_count,
            global_count: self.global_count,
            scoped_count: self.scoped_count,
            last_updated: self.last_updated,
            schema_version: self.schema_version,
        }
    }
}

/// The current time in milliseconds since the Unix epoch (0 before the epoch).
pub fn now_ms() -> u64 {
    let n = unix_now_nanos();
    (n / 1_000_000) as u64
}

} // verus!

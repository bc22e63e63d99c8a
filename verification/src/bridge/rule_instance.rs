//! A rule of any family, as the tables store it.
use vstd::prelude::*;
use crate::bridge::types::{family_layer, LayerId, RuleFamilyId, RuleScope};
use crate::bridge::families::lo_system::NetworkEgressRule;
use crate::bridge::families::lo_system::SidecarSpawnRule;
use crate::bridge::families::l1_input::InputSchemaRule;
use crate::bridge::families::l1_input::InputSanitizationRule;
use crate::bridge::families::l2_planner::PromptAssemblyRule;
use crate::bridge::families::l2_planner::PromptLengthRule;
use crate::bridge::families::l3_modelio::{ModelOutputEscalateRule, ModelOutputScanRule};
use crate::bridge::families::l4_tool_gateway::{ToolParamConstraintRule, ToolWhitelistRule};
use crate::bridge::families::l5_rag::RAGSourceRule;
use crate::bridge::families::l5_rag::RAGDocSensitivityRule;
use crate::bridge::families::l6_egress::{OutputAuditRule, OutputPIIRule};

verus! {

/// A rule of one of the families that tables hold. Each variant carries the rule's
/// family, which the variant fixes.
#[derive(Debug, Clone)]
pub enum RuleInstance {
    NetworkEgress(NetworkEgressRule),
    SidecarSpawn(SidecarSpawnRule),
    InputSchema(InputSchemaRule),
    InputSanitize(InputSanitizationRule),
    PromptAssembly(PromptAssemblyRule),
    PromptLength(PromptLengthRule),
    ModelOutputScan(ModelOutputScanRule),
    ModelOutputEscalate(ModelOutputEscalateRule),
    ToolWhitelist(ToolWhitelistRule),
    ToolParamConstraint(ToolParamConstraintRule),
    RAGSource(RAGSourceRule),
    RAGDocSensitivity(RAGDocSensitivityRule),
    OutputPII(OutputPIIRule),
    OutputAudit(OutputAuditRule),
}

impl RuleInstance {
    /// The rule's identifier.
    pub open spec fn spec_rule_id(&self) -> Seq<char> {
        match self {
            RuleInstance::NetworkEgress(r) => r.rule_id@,
            RuleInstance::SidecarSpawn(r) => r.rule_id@,
            RuleInstance::InputSchema(r) => r.rule_id@,
            RuleInstance::InputSanitize(r) => r.rule_id@,
            RuleInstance::PromptAssembly(r) => r.rule_id@,
            RuleInstance::PromptLength(r) => r.rule_id@,
            RuleInstance::ModelOutputScan(r) => r.rule_id@,
            RuleInstance::ModelOutputEscalate(r) => r.rule_id@,
            RuleInstance::ToolWhitelist(r) => r.rule_id@,
            RuleInstance::ToolParamConstraint(r) => r.rule_id@,
            RuleInstance::RAGSource(r) => r.rule_id@,
            RuleInstance::RAGDocSensitivity(r) => r.rule_id@,
            RuleInstance::OutputPII(r) => r.rule_id@,
            RuleInstance::OutputAudit(r) => r.rule_id@,
        }
    }

    /// The rule's priority.
    pub open spec fn spec_priority(&self) -> u32 {
        match self {
            RuleInstance::NetworkEgress(r) => r.priority,
            RuleInstance::SidecarSpawn(r) => r.priority,
            RuleInstance::InputSchema(r) => r.priority,
            RuleInstance::InputSanitize(r) => r.priority,
            RuleInstance::PromptAssembly(r) => r.priority,
            RuleInstance::PromptLength(r) => r.priority,
            RuleInstance::ModelOutputScan(r) => r.priority,
            RuleInstance::ModelOutputEscalate(r) => r.priority,
            RuleInstance::ToolWhitelist(r) => r.priority,
            RuleInstance::ToolParamConstraint(r) => r.priority,
            RuleInstance::RAGSource(r) => r.priority,
            RuleInstance::RAGDocSensitivity(r) => r.priority,
            RuleInstance::OutputPII(r) => r.priority,
            RuleInstance::OutputAudit(r) => r.priority,
        }
    }

    /// The rule's scope.
    pub open spec fn spec_scope(&self) -> RuleScope {
        match self {
            RuleInstance::NetworkEgress(r) => r.scope,
            RuleInstance::SidecarSpawn(r) => r.scope,
            RuleInstance::InputSchema(r) => r.scope,
            RuleInstance::InputSanitize(r) => r.scope,
            RuleInstance::PromptAssembly(r) => r.scope,
            RuleInstance::PromptLength(r) => r.scope,
            RuleInstance::ModelOutputScan(r) => r.scope,
            RuleInstance::ModelOutputEscalate(r) => r.scope,
            RuleInstance::ToolWhitelist(r) => r.scope,
            RuleInstance::ToolParamConstraint(r) => r.scope,
            RuleInstance::RAGSource(r) => r.scope,
            RuleInstance::RAGDocSensitivity(r) => r.scope,
            RuleInstance::OutputPII(r) => r.scope,
            RuleInstance::OutputAudit(r) => r.scope,
        }
    }

    /// The rule's creation time.
    pub open spec fn spec_created_at(&self) -> u64 {
        match self {
            RuleInstance::NetworkEgress(r) => r.created_at,
            RuleInstance::SidecarSpawn(r) => r.created_at,
            RuleInstance::InputSchema(r) => r.created_at,
            RuleInstance::InputSanitize(r) => r.created_at,
            RuleInstance::PromptAssembly(r) => r.created_at,
            RuleInstance::PromptLength(r) => r.created_at,
            RuleInstance::ModelOutputScan(r) => r.created_at,
            RuleInstance::ModelOutputEscalate(r) => r.created_at,
            RuleInstance::ToolWhitelist(r) => r.created_at,
            RuleInstance::ToolParamConstraint(r) => r.created_at,
            RuleInstance::RAGSource(r) => r.created_at,
            RuleInstance::RAGDocSensitivity(r) => r.created_at,
            RuleInstance::OutputPII(r) => r.created_at,
            RuleInstance::OutputAudit(r) => r.created_at,
        }
    }

    /// Whether the rule is enabled.
    pub open spec fn spec_enabled(&self) -> bool {
        match self {
            RuleInstance::NetworkEgress(r) => r.enabled,
            RuleInstance::SidecarSpawn(r) => r.enabled,
            RuleInstance::InputSchema(r) => r.enabled,
            RuleInstance::InputSanitize(r) => r.enabled,
            RuleInstance::PromptAssembly(r) => r.enabled,
            RuleInstance::PromptLength(r) => r.enabled,
            RuleInstance::ModelOutputScan(r) => r.enabled,
            RuleInstance::ModelOutputEscalate(r) => r.enabled,
            RuleInstance::ToolWhitelist(r) => r.enabled,
            RuleInstance::ToolParamConstraint(r) => r.enabled,
            RuleInstance::RAGSource(r) => r.enabled,
            RuleInstance::RAGDocSensitivity(r) => r.enabled,
            RuleInstance::OutputPII(r) => r.enabled,
            RuleInstance::OutputAudit(r) => r.enabled,
        }
    }

    /// The rule's description.
    pub open spec fn spec_description(&self) -> Option<String> {
        match self {
            RuleInstance::NetworkEgress(r) => r.description,
            RuleInstance::SidecarSpawn(r) => r.description,
            RuleInstance::InputSchema(r) => r.description,
            RuleInstance::InputSanitize(r) => r.description,
            RuleInstance::PromptAssembly(r) => r.description,
            RuleInstance::PromptLength(r) => r.description,
            RuleInstance::ModelOutputScan(r) => r.description,
            RuleInstance::ModelOutputEscalate(r) => r.description,
            RuleInstance::ToolWhitelist(r) => r.description,
            RuleInstance::ToolParamConstraint(r) => r.description,
            RuleInstance::RAGSource(r) => r.description,
            RuleInstance::RAGDocSensitivity(r) => r.description,
            RuleInstance::OutputPII(r) => r.description,
            RuleInstance::OutputAudit(r) => r.description,
        }
    }

    /// The family of the rule, fixed by its variant.
    pub open spec fn spec_family(&self) -> RuleFamilyId {
        match self {
            RuleInstance::NetworkEgress(_) => RuleFamilyId::NetworkEgress,
            RuleInstance::SidecarSpawn(_) => RuleFamilyId::SidecarSpawn,
            RuleInstance::InputSchema(_) => RuleFamilyId::InputSchema,
            RuleInstance::InputSanitize(_) => RuleFamilyId::InputSanitize,
            RuleInstance::PromptAssembly(_) => RuleFamilyId::PromptAssembly,
            RuleInstance::PromptLength(_) => RuleFamilyId::PromptLength,
            RuleInstance::ModelOutputScan(_) => RuleFamilyId::ModelOutputScan,
            RuleInstance::ModelOutputEscalate(_) => RuleFamilyId::ModelOutputEscalate,
            RuleInstance::ToolWhitelist(_) => RuleFamilyId::ToolWhitelist,
            RuleInstance::ToolParamConstraint(_) => RuleFamilyId::ToolParamConstraint,
            RuleInstance::RAGSource(_) => RuleFamilyId::RAGSource,
            RuleInstance::RAGDocSensitivity(_) => RuleFamilyId::RAGDocSensitivity,
            RuleInstance::OutputPII(_) => RuleFamilyId::OutputPII,
            RuleInstance::OutputAudit(_) => RuleFamilyId::OutputAudit,
        }
    }

    /// The unique identifier of the rule.
    pub fn rule_id(&self) -> (r: &str)
        ensures
            r@ == self.spec_rule_id(),
    {
        match self {
            RuleInstance::NetworkEgress(r) => r.rule_id.as_str(),
            RuleInstance::SidecarSpawn(r) => r.rule_id.as_str(),
            RuleInstance::InputSchema(r) => r.rule_id.as_str(),
            RuleInstance::InputSanitize(r) => r.rule_id.as_str(),
            RuleInstance::PromptAssembly(r) => r.rule_id.as_str(),
            RuleInstance::PromptLength(r) => r.rule_id.as_str(),
            RuleInstance::ModelOutputScan(r) => r.rule_id.as_str(),
            RuleInstance::ModelOutputEscalate(r) => r.rule_id.as_str(),
            RuleInstance::ToolWhitelist(r) => r.rule_id.as_str(),
            RuleInstance::ToolParamConstraint(r) => r.rule_id.as_str(),
            RuleInstance::RAGSource(r) => r.rule_id.as_str(),
            RuleInstance::RAGDocSensitivity(r) => r.rule_id.as_str(),
            RuleInstance::OutputPII(r) => r.rule_id.as_str(),
            RuleInstance::OutputAudit(r) => r.rule_id.as_str(),
        }
    }

    /// The priority (higher is evaluated first).
    pub fn priority(&self) -> (r: u32)
        ensures
            r == self.spec_priority(),
    {
        match self {
            RuleInstance::NetworkEgress(r) => r.priority,
            RuleInstance::SidecarSpawn(r) => r.priority,
            RuleInstance::InputSchema(r) => r.priority,
            RuleInstance::InputSanitize(r) => r.priority,
            RuleInstance::PromptAssembly(r) => r.priority,
            RuleInstance::PromptLength(r) => r.priority,
            RuleInstance::ModelOutputScan(r) => r.priority,
            RuleInstance::ModelOutputEscalate(r) => r.priority,
            RuleInstance::ToolWhitelist(r) => r.priority,
            RuleInstance::ToolParamConstraint(r) => r.priority,
            RuleInstance::RAGSource(r) => r.priority,
            RuleInstance::RAGDocSensitivity(r) => r.priority,
            RuleInstance::OutputPII(r) => r.priority,
            RuleInstance::OutputAudit(r) => r.priority,
        }
    }

    /// The scope of the rule.
    pub fn scope(&self) -> (r: &RuleScope)
        ensures
            *r == self.spec_scope(),
    {
        match self {
            RuleInstance::NetworkEgress(r) => &r.scope,
            RuleInstance::SidecarSpawn(r) => &r.scope,
            RuleInstance::InputSchema(r) => &r.scope,
            RuleInstance::InputSanitize(r) => &r.scope,
            RuleInstance::PromptAssembly(r) => &r.scope,
            RuleInstance::PromptLength(r) => &r.scope,
            RuleInstance::ModelOutputScan(r) => &r.scope,
            RuleInstance::ModelOutputEscalate(r) => &r.scope,
            RuleInstance::ToolWhitelist(r) => &r.scope,
            RuleInstance::ToolParamConstraint(r) => &r.scope,
            RuleInstance::RAGSource(r) => &r.scope,
            RuleInstance::RAGDocSensitivity(r) => &r.scope,
            RuleInstance::OutputPII(r) => &r.scope,
            RuleInstance::OutputAudit(r) => &r.scope,
        }
    }

    /// Whether the rule applies to every agent.
    pub fn is_global(&self) -> (r: bool)
        ensures
            r == self.spec_scope().is_global,
    {
        match self {
            RuleInstance::NetworkEgress(r) => r.scope.is_global,
            RuleInstance::SidecarSpawn(r) => r.scope.is_global,
            RuleInstance::InputSchema(r) => r.scope.is_global,
            RuleInstance::InputSanitize(r) => r.scope.is_global,
            RuleInstance::PromptAssembly(r) => r.scope.is_global,
            RuleInstance::PromptLength(r) => r.scope.is_global,
            RuleInstance::ModelOutputScan(r) => r.scope.is_global,
            RuleInstance::ModelOutputEscalate(r) => r.scope.is_global,
            RuleInstance::ToolWhitelist(r) => r.scope.is_global,
            RuleInstance::ToolParamConstraint(r) => r.scope.is_global,
            RuleInstance::RAGSource(r) => r.scope.is_global,
            RuleInstance::RAGDocSensitivity(r) => r.scope.is_global,
            RuleInstance::OutputPII(r) => r.scope.is_global,
            RuleInstance::OutputAudit(r) => r.scope.is_global,
        }
    }

    /// The creation time in milliseconds since the epoch.
    pub fn created_at(&self) -> (r: u64)
        ensures
            r == self.spec_created_at(),
    {
        match self {
            RuleInstance::NetworkEgress(r) => r.created_at,
            RuleInstance::SidecarSpawn(r) => r.created_at,
            RuleInstance::InputSchema(r) => r.created_at,
            RuleInstance::InputSanitize(r) => r.created_at,
            RuleInstance::PromptAssembly(r) => r.created_at,
            RuleInstance::PromptLength(r) => r.created_at,
            RuleInstance::ModelOutputScan(r) => r.created_at,
            RuleInstance::ModelOutputEscalate(r) => r.created_at,
            RuleInstance::ToolWhitelist(r) => r.created_at,
            RuleInstance::ToolParamConstraint(r) => r.created_at,
            RuleInstance::RAGSource(r) => r.created_at,
            RuleInstance::RAGDocSensitivity(r) => r.created_at,
            RuleInstance::OutputPII(r) => r.created_at,
            RuleInstance::OutputAudit(r) => r.created_at,
        }
    }

    /// Whether the rule is enabled.
    pub fn is_enabled(&self) -> (r: bool)
        ensures
            r == self.spec_enabled(),
    {
        match self {
            RuleInstance::NetworkEgress(r) => r.enabled,
            RuleInstance::SidecarSpawn(r) => r.enabled,
            RuleInstance::InputSchema(r) => r.enabled,
            RuleInstance::InputSanitize(r) => r.enabled,
            RuleInstance::PromptAssembly(r) => r.enabled,
            RuleInstance::PromptLength(r) => r.enabled,
            RuleInstance::ModelOutputScan(r) => r.enabled,
            RuleInstance::ModelOutputEscalate(r) => r.enabled,
            RuleInstance::ToolWhitelist(r) => r.enabled,
            RuleInstance::ToolParamConstraint(r) => r.enabled,
            RuleInstance::RAGSource(r) => r.enabled,
            RuleInstance::RAGDocSensitivity(r) => r.enabled,
            RuleInstance::OutputPII(r) => r.enabled,
            RuleInstance::OutputAudit(r) => r.enabled,
        }
    }

    /// The family of the rule.
    pub fn family_id(&self) -> (r: RuleFamilyId)
        ensures
            r == self.spec_family(),
    {
        match self {
            RuleInstance::NetworkEgress(_) => RuleFamilyId::NetworkEgress,
            RuleInstance::SidecarSpawn(_) => RuleFamilyId::SidecarSpawn,
            RuleInstance::InputSchema(_) => RuleFamilyId::InputSchema,
            RuleInstance::InputSanitize(_) => RuleFamilyId::InputSanitize,
            RuleInstance::PromptAssembly(_) => RuleFamilyId::PromptAssembly,
            RuleInstance::PromptLength(_) => RuleFamilyId::PromptLength,
            RuleInstance::ModelOutputScan(_) => RuleFamilyId::ModelOutputScan,
            RuleInstance::ModelOutputEscalate(_) => RuleFamilyId::ModelOutputEscalate,
            RuleInstance::ToolWhitelist(_) => RuleFamilyId::ToolWhitelist,
            RuleInstance::ToolParamConstraint(_) => RuleFamilyId::ToolParamConstraint,
            RuleInstance::RAGSource(_) => RuleFamilyId::RAGSource,
            RuleInstance::RAGDocSensitivity(_) => RuleFamilyId::RAGDocSensitivity,
            RuleInstance::OutputPII(_) => RuleFamilyId::OutputPII,
            RuleInstance::OutputAudit(_) => RuleFamilyId::OutputAudit,
        }
    }

    /// The layer of the rule's family.
    pub fn layer_id(&self) -> (r: LayerId)
        ensures
            r == family_layer(self.spec_family()),
    {
        self.family_id().layer()
    }

    /// The description of the rule, if it has one.
    pub fn description(&self) -> (r: Option<&str>)
        ensures
            r is Some <==> self.spec_description() is Some,
            r is Some ==> r->0@ == self.spec_description()->0@,
    {
        let d = match self {
            RuleInstance::NetworkEgress(r) => &r.description,
            RuleInstance::SidecarSpawn(r) => &r.description,
            RuleInstance::InputSchema(r) => &r.description,
            RuleInstance::InputSanitize(r) => &r.description,
            RuleInstance::PromptAssembly(r) => &r.description,
            RuleInstance::PromptLength(r) => &r.description,
            RuleInstance::ModelOutputScan(r) => &r.description,
            RuleInstance::ModelOutputEscalate(r) => &r.description,
            RuleInstance::ToolWhitelist(r) => &r.description,
            RuleInstance::ToolParamConstraint(r) => &r.description,
            RuleInstance::RAGSource(r) => &r.description,
            RuleInstance::RAGDocSensitivity(r) => &r.description,
            RuleInstance::OutputPII(r) => &r.description,
            RuleInstance::OutputAudit(r) => &r.description,
        };
        match d {
            Some(s) => Some(s.as_str()),
            None => None,
        }
    }
}

} // verus!

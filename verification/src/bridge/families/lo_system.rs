//! System layer families: network egress and sidecar spawning.
use vstd::prelude::*;
use crate::bridge::types::{now_ms, NetworkProtocol, RuleAction, RuleScope};
use crate::text::{ends_with, owned, starts_with, str_eq, strs_view};
use vstd::string::*;

verus! {

/// Whether a destination pattern matches a domain: `*` matches all, `*.base` matches
/// the base domain itself and its subdomains (domains ending in `.base`), anything else
/// must be equal.
pub open spec fn domain_pattern_matches(pattern: Seq<char>, domain: Seq<char>) -> bool {
    if pattern == "*"@ {
        true
    } else if "*."@.is_prefix_of(pattern) {
        domain == pattern.skip(2) || (seq!['.'] + pattern.skip(2)).is_suffix_of(domain)
    } else {
        pattern == domain
    }
}

/// Whether an image pattern matches an image: `*` matches all, equal strings match,
/// and `name:*` matches the images `name:` followed by a tag.
pub open spec fn image_pattern_matches(pattern: Seq<char>, image: Seq<char>) -> bool {
    if pattern == "*"@ || pattern == image {
        true
    } else if ":*"@.is_suffix_of(pattern) {
        pattern.take(pattern.len() - 1).is_prefix_of(image)
    } else {
        false
    }
}

/// A pattern `*.base` matches exactly `base` and the domains ending in `.base`, and `*`
/// matches every domain.
pub proof fn lemma_wildcard_domain(base: Seq<char>, domain: Seq<char>)
    ensures
        domain_pattern_matches("*."@ + base, domain) == (domain == base || (seq!['.'] + base).is_suffix_of(domain)),
        domain_pattern_matches("*"@, domain),
{
    reveal_strlit("*.");
    reveal_strlit("*");
    let p = "*."@ + base;
    assert(p.skip(2) =~= base);
    assert(p.len() >= 2);
    assert(p[1] == '.');
    assert("*."@.is_prefix_of(p)) by {
        assert(p.take(2) =~= "*."@);
    }
}

/// A pattern `name:*` matches exactly itself and the images starting with `name:`, and
/// `*` matches every image.
pub proof fn lemma_versioned_image(name: Seq<char>, image: Seq<char>)
    ensures
        image_pattern_matches(name + ":*"@, image) == (image == name + ":*"@ || (name + seq![':']).is_prefix_of(image)),
        image_pattern_matches("*"@, image),
{
    reveal_strlit(":*");
    reveal_strlit("*");
    let p = name + ":*"@;
    assert(p.len() == name.len() + 2);
    assert(p[p.len() - 1] == '*' && p[p.len() - 2] == ':');
    assert(p != "*"@);
    assert(":*"@.is_suffix_of(p)) by {
        assert(p.skip(p.len() - 2) =~= ":*"@);
    }
    assert(p.take(p.len() - 1) =~= name + seq![':']);
}


/// Controls which network destinations an agent or sidecar can contact.
#[derive(Debug, Clone)]
pub struct NetworkEgressRule {
    /// Unique rule identifier
    pub rule_id: String,
    /// Priority (higher = evaluated first)
    pub priority: u32,
    /// Which agents the rule applies to
    pub scope: RuleScope,
    /// Destination domain patterns (`*` and `*.suffix` wildcards)
    pub dest_domains: Vec<String>,
    /// Allowed ports, inclusive
    pub port_range: Option<(u16, u16)>,
    /// Network protocol
    pub protocol: NetworkProtocol,
    /// Action to take
    pub action: RuleAction,
    /// Redirect destination
    pub redirect_target: Option<String>,
    /// Creation time in milliseconds since the epoch
    pub created_at: u64,
    /// Optional description
    pub description: Option<String>,
    /// Whether the rule is enabled
    pub enabled: bool,
}

impl NetworkEgressRule {
    /// A new rule with default settings and a global scope.
    pub fn new(rule_id: String) -> (r: Self)
        ensures
            r.rule_id == rule_id,
            r.priority == 0,
            r.scope.is_global,
            r.scope.agent_ids@.len() == 0,
            r.scope.tags@.len() == 0,
            r.dest_domains@.len() == 0,
            r.port_range is None,
            r.protocol == NetworkProtocol::HTTPS,
            r.action == RuleAction::Deny,
            r.redirect_target is None,
            r.description is None,
            r.enabled,
    {
        NetworkEgressRule {
            rule_id,
            priority: 0,
            scope: RuleScope::global(),
            dest_domains: Vec::new(),
            port_range: None,
            protocol: NetworkProtocol::HTTPS,
            action: RuleAction::Deny,
            redirect_target: None,
            created_at: now_ms(),
            description: None,
            enabled: true,
        }
    }

    /// Sets the priority.
    pub fn with_priority(self, priority: u32) -> (r: Self)
        ensures
            r == (NetworkEgressRule { priority: priority, ..self }),
    {
        NetworkEgressRule { priority: priority, ..self }
    }

    /// Sets the scope.
    pub fn with_scope(self, scope: RuleScope) -> (r: Self)
        ensures
            r == (NetworkEgressRule { scope: scope, ..self }),
    {
        NetworkEgressRule { scope: scope, ..self }
    }

    /// Scopes the rule to one agent.
    pub fn for_agent(self, agent_id: String) -> (r: Self)
        ensures
            r == (NetworkEgressRule { scope: r.scope, ..self }),
            !r.scope.is_global,
            r.scope.agent_ids@ == seq![agent_id],
            r.scope.tags@.len() == 0,
    {
        NetworkEgressRule { scope: RuleScope::for_agent(agent_id), ..self }
    }

    /// Sets the destination patterns.
    pub fn with_dest_domains(self, domains: Vec<String>) -> (r: Self)
        ensures
            r == (NetworkEgressRule { dest_domains: domains, ..self }),
    {
        NetworkEgressRule { dest_domains: domains, ..self }
    }

    /// Sets the protocol.
    pub fn with_protocol(self, protocol: NetworkProtocol) -> (r: Self)
        ensures
            r == (NetworkEgressRule { protocol: protocol, ..self }),
    {
        NetworkEgressRule { protocol: protocol, ..self }
    }

    /// Sets the action.
    pub fn with_action(self, action: RuleAction) -> (r: Self)
        ensures
            r == (NetworkEgressRule { action: action, ..self }),
    {
        NetworkEgressRule { action: action, ..self }
    }

    /// Sets the redirect target.
    pub fn with_redirect_target(self, target: String) -> (r: Self)
        ensures
            r == (NetworkEgressRule { redirect_target: Some(target), ..self }),
    {
        NetworkEgressRule { redirect_target: Some(target), ..self }
    }

    /// Sets the description.
    pub fn with_description(self, desc: String) -> (r: Self)
        ensures
            r == (NetworkEgressRule { description: Some(desc), ..self }),
    {
        NetworkEgressRule { description: Some(desc), ..self }
    }

    /// Restricts the rule to the ports from `min` to `max`.
    pub fn with_port_range(self, min: u16, max: u16) -> (r: Self)
        ensures
            r == (NetworkEgressRule { port_range: Some((min, max)), ..self }),
    {
        NetworkEgressRule { port_range: Some((min, max)), ..self }
    }

    /// Whether some destination pattern of the rule matches the domain.
    pub fn matches_domain(&self, domain: &str) -> (r: bool)
        ensures
            r == (exists|j: int|
                0 <= j < self.dest_domains@.len() && #[trigger] domain_pattern_matches(self.dest_domains@[j]@, domain@)),
    {
        let n = self.dest_domains.len();
        let mut i: usize = 0;
        while i < n
            invariant
                n == self.dest_domains@.len(),
                i <= n,
                forall|j: int| 0 <= j < i ==> !#[trigger] domain_pattern_matches(self.dest_domains@[j]@, domain@),
            decreases n - i,
        {
            if Self::domain_matches(self.dest_domains[i].as_str(), domain) {
                return true;
            }
            i = i + 1;
        }
        false
    }

    /// Whether a port is within the range; every port matches when there is none.
    pub fn matches_port(&self, port: u16) -> (r: bool)
        ensures
            r == match self.port_range {
                Some((min, max)) => min <= port && port <= max,
                None => true,
            },
    {
        match self.port_range {
            Some((min, max)) => port >= min && port <= max,
            None => true,
        }
    }

    /// Wildcard matching of one domain pattern.
    fn domain_matches(pattern: &str, domain: &str) -> (r: bool)
        ensures
            r == domain_pattern_matches(pattern@, domain@),
    {
        if str_eq(pattern, "*") {
            return true;
        }
        if starts_with(pattern, "*.") {
            proof {
                reveal_strlit("*.");
            }
            let n = pattern.unicode_len();
            let suffix = pattern.substring_char(2, n);
            let mut dotted = owned(".");
            dotted.append(suffix);
            proof {
                reveal_strlit(".");
                assert(dotted@ =~= seq!['.'] + pattern@.skip(2));
            }
            str_eq(domain, suffix) || ends_with(domain, dotted.as_str())
        } else {
            str_eq(pattern, domain)
        }
    }

}

/// Restricts which sidecars an agent may launch.
#[derive(Debug, Clone)]
pub struct SidecarSpawnRule {
    /// Unique rule identifier
    pub rule_id: String,
    /// Priority (higher = evaluated first)
    pub priority: u32,
    /// Which agents the rule applies to
    pub scope: RuleScope,
    /// Allowed images (`*` and `name:*` wildcards)
    pub allowed_images: Vec<String>,
    /// Time to live in seconds at most
    pub max_ttl: Option<u32>,
    /// Concurrent instances at most
    pub max_instances: Option<u32>,
    /// CPU limit in millicores
    pub cpu_limit: Option<u32>,
    /// Memory limit in MB
    pub mem_limit: Option<u32>,
    /// Creation time in milliseconds since the epoch
    pub created_at: u64,
    /// Optional description
    pub description: Option<String>,
    /// Whether the rule is enabled
    pub enabled: bool,
}

impl SidecarSpawnRule {
    /// A new rule with default settings and a global scope.
    pub fn new(rule_id: String) -> (r: Self)
        ensures
            r.rule_id == rule_id,
            r.priority == 0,
            r.scope.is_global,
            r.scope.agent_ids@.len() == 0,
            r.scope.tags@.len() == 0,
            r.allowed_images@.len() == 0,
            r.max_ttl is None,
            r.max_instances is None,
            r.cpu_limit is None,
            r.mem_limit is None,
            r.description is None,
            r.enabled,
    {
        SidecarSpawnRule {
            rule_id,
            priority: 0,
            scope: RuleScope::global(),
            allowed_images: Vec::new(),
            max_ttl: None,
            max_instances: None,
            cpu_limit: None,
            mem_limit: None,
            created_at: now_ms(),
            description: None,
            enabled: true,
        }
    }

    /// Sets the priority.
    pub fn with_priority(self, priority: u32) -> (r: Self)
        ensures
            r == (SidecarSpawnRule { priority: priority, ..self }),
    {
        SidecarSpawnRule { priority: priority, ..self }
    }

    /// Sets the scope.
    pub fn with_scope(self, scope: RuleScope) -> (r: Self)
        ensures
            r == (SidecarSpawnRule { scope: scope, ..self }),
    {
        SidecarSpawnRule { scope: scope, ..self }
    }

    /// Scopes the rule to one agent.
    pub fn for_agent(self, agent_id: String) -> (r: Self)
        ensures
            r == (SidecarSpawnRule { scope: r.scope, ..self }),
            !r.scope.is_global,
            r.scope.agent_ids@ == seq![agent_id],
            r.scope.tags@.len() == 0,
    {
        SidecarSpawnRule { scope: RuleScope::for_agent(agent_id), ..self }
    }

    /// Sets the allowed images.
    pub fn with_allowed_images(self, images: Vec<String>) -> (r: Self)
        ensures
            r == (SidecarSpawnRule { allowed_images: images, ..self }),
    {
        SidecarSpawnRule { allowed_images: images, ..self }
    }

    /// Sets the TTL limit.
    pub fn with_max_ttl(self, ttl: u32) -> (r: Self)
        ensures
            r == (SidecarSpawnRule { max_ttl: Some(ttl), ..self }),
    {
        SidecarSpawnRule { max_ttl: Some(ttl), ..self }
    }

    /// Sets the instance limit.
    pub fn with_max_instances(self, instances: u32) -> (r: Self)
        ensures
            r == (SidecarSpawnRule { max_instances: Some(instances), ..self }),
    {
        SidecarSpawnRule { max_instances: Some(instances), ..self }
    }

    /// Sets the CPU limit.
    pub fn with_cpu_limit(self, limit: u32) -> (r: Self)
        ensures
            r == (SidecarSpawnRule { cpu_limit: Some(limit), ..self }),
    {
        SidecarSpawnRule { cpu_limit: Some(limit), ..self }
    }

    /// Sets the memory limit.
    pub fn with_mem_limit(self, limit: u32) -> (r: Self)
        ensures
            r == (SidecarSpawnRule { mem_limit: Some(limit), ..self }),
    {
        SidecarSpawnRule { mem_limit: Some(limit), ..self }
    }

    /// Sets the description.
    pub fn with_description(self, desc: String) -> (r: Self)
        ensures
            r == (SidecarSpawnRule { description: Some(desc), ..self }),
    {
        SidecarSpawnRule { description: Some(desc), ..self }
    }

    /// Whether some allowed image pattern matches the image.
    pub fn is_image_allowed(&self, image: &str) -> (r: bool)
        ensures
            r == (exists|j: int|
                0 <= j < self.allowed_images@.len() && #[trigger] image_pattern_matches(self.allowed_images@[j]@, image@)),
    {
        let n = self.allowed_images.len();
        let mut i: usize = 0;
        while i < n
            invariant
                n == self.allowed_images@.len(),
                i <= n,
                forall|j: int| 0 <= j < i ==> !#[trigger] image_pattern_matches(self.allowed_images@[j]@, image@),
            decreases n - i,
        {
            if Self::image_matches(self.allowed_images[i].as_str(), image) {
                return true;
            }
            i = i + 1;
        }
        false
    }

    /// Matching of one image pattern.
    fn image_matches(pattern: &str, image: &str) -> (r: bool)
        ensures
            r == image_pattern_matches(pattern@, image@),
    {
        if str_eq(pattern, "*") {
            return true;
        }
        if str_eq(pattern, image) {
            return true;
        }
        if ends_with(pattern, ":*") {
            proof {
                reveal_strlit(":*");
            }
            let n = pattern.unicode_len();
            let base = pattern.substring_char(0, n - 1);
            starts_with(image, base)
        } else {
            false
        }
    }

}

} // verus!

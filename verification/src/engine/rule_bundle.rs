//! Bundle identity, validation results and errors, and the bundle validator's limits.
use vstd::prelude::*;

verus! {

/// A bundle identifier.
#[derive(Debug, Clone, PartialEq, Eq, Hash)]
pub struct BundleId(pub String);

impl BundleId {
    /// A bundle id with the given text.
    pub fn new(id: String) -> (r: Self)
        ensures
            r.0@ == id@,
    {
        BundleId(id)
    }

    /// The text of the id.
    pub fn as_str(&self) -> (r: &str)
        ensures
            r@ == self.0@,
    {
        self.0.as_str()
    }
}

/// How a bundle is taken out of service.
#[derive(Debug, Clone, Copy, PartialEq, Eq, Structural)]
pub enum RevocationPolicy {
    /// At once, ending running evaluations
    Immediate,
    /// Letting running evaluations finish, waiting at most this many seconds
    GracefulDrain { max_wait_seconds: u64 },
}

impl Default for RevocationPolicy {
    /// A graceful drain of at most 30 seconds.
    fn default() -> (r: Self)
        ensures
            r == (RevocationPolicy::GracefulDrain { max_wait_seconds: 30 }),
    {
        RevocationPolicy::GracefulDrain { max_wait_seconds: 30 }
    }
}

/// An error found while validating a bundle.
#[derive(Debug, Clone, PartialEq, Eq)]
pub enum ValidationError {
    EmptyBundle,
    DuplicateRuleId(String),
    InvalidRuleId(String),
    InvalidBundleId(String),
    InvalidPriority { rule_id: String, priority: i32 },
    PriorityConflict { rule_id1: String, rule_id2: String, priority: i32 },
    InvalidScope(String),
    InvalidConstraint { rule_id: String, reason: String },
    InvalidWasmHook { rule_id: String, reason: String },
    InvalidActionParams { rule_id: String, reason: String },
    DisallowedSideEffect { rule_id: String, side_effect: String },
    SignatureVerificationFailed(String),
    InvalidRolloutPolicy(String),
    SchemaValidationFailed(String),
    RuleConflict { rule_id1: String, rule_id2: String, reason: String },
}

/// A warning found while validating a bundle.
#[derive(Debug, Clone, PartialEq, Eq)]
pub enum ValidationWarning {
    HighPriority { rule_id: String, priority: i32 },
    LargeBundle { rule_count: usize },
    ComplexMatchExpression { rule_id: String },
    HighMemoryConstraint { rule_id: String, limit_mb: u64 },
    LongTimeout { rule_id: String, timeout_ms: u64 },
    NoRolloutPolicy,
    OverlappingScopes { rule_id1: String, rule_id2: String },
}

/// The outcome of validating a bundle: the errors and warnings found, in order. It is
/// valid exactly when no error was found.
#[derive(Debug, Clone)]
pub struct ValidationResult {
    /// No error was found
    pub valid: bool,
    /// Errors, in the order found
    pub errors: Vec<ValidationError>,
    /// Warnings, in the order found
    pub warnings: Vec<ValidationWarning>,
}

impl ValidationResult {
    /// Valid exactly when there is no error.
    pub open spec fn wf(&self) -> bool {
        self.valid == (self.errors@.len() == 0)
    }

    /// A valid result: no error, no warning.
    pub fn valid() -> (r: Self)
        ensures
            r.wf(),
            r.valid,
            r.errors@.len() == 0,
            r.warnings@.len() == 0,
    {
        ValidationResult { valid: true, errors: Vec::new(), warnings: Vec::new() }
    }

    /// An invalid result with one error.
    pub fn with_error(error: ValidationError) -> (r: Self)
        ensures
            r.wf(),
            !r.valid,
            r.errors@ == seq![error],
            r.warnings@.len() == 0,
    {
        ValidationResult { valid: false, errors: vec![error], warnings: Vec::new() }
    }

    /// Records an error; the result becomes invalid.
    pub fn add_error(&mut self, error: ValidationError)
        ensures
            !final(self).valid,
            final(self).errors@ == old(self).errors@.push(error),
            final(self).warnings@ == old(self).warnings@,
            final(self).wf(),
    {
        self.valid = false;
        self.errors.push(error);
    }

    /// Records a warning; validity is unchanged.
    pub fn add_warning(&mut self, warning: ValidationWarning)
        ensures
            final(self).valid == old(self).valid,
            final(self).errors@ == old(self).errors@,
            final(self).warnings@ == old(self).warnings@.push(warning),
            old(self).wf() ==> final(self).wf(),
    {
        self.warnings.push(warning);
    }

    /// Appends another result's errors and warnings; the result stays valid only if
    /// both were.
    pub fn merge(&mut self, other: ValidationResult)
        ensures
            final(self).valid == (old(self).valid && other.valid),
            final(self).errors@ == old(self).errors@ + other.errors@,
            final(self).warnings@ == old(self).warnings@ + other.warnings@,
            old(self).wf() && other.wf() ==> final(self).wf(),
    {
        if !other.valid {
            self.valid = false;
        }
        let mut errors = other.errors;
        let mut warnings = other.warnings;
        self.errors.append(&mut errors);
        self.warnings.append(&mut warnings);
    }
}

/// Reads and writes bundles as JSON.
pub struct BundleParser;

/// An error reading or writing a bundle.
#[derive(Debug, Clone, PartialEq, Eq)]
pub enum ParseError {
    JsonParseError(String),
    SerializationError(String),
    InvalidFormat(String),
}

/// Checks a bundle against limits.
pub struct BundleValidator {
    max_rules_per_bundle: usize,
    max_priority: u32,
    require_signatures: bool,
}

impl BundleValidator {
    /// The most rules a bundle may hold without a warning.
    pub closed spec fn max_rules(&self) -> usize {
        self.max_rules_per_bundle
    }

    /// The highest priority a rule may have.
    pub closed spec fn max_prio(&self) -> u32 {
        self.max_priority
    }

    /// Whether bundles must be signed.
    pub closed spec fn signatures_required(&self) -> bool {
        self.require_signatures
    }

    /// The most rules a bundle may hold without a warning.
    pub fn max_rules_per_bundle(&self) -> (r: usize)
        ensures
            r == self.max_rules(),
    {
        self.max_rules_per_bundle
    }

    /// The highest priority a rule may have.
    pub fn max_priority(&self) -> (r: u32)
        ensures
            r == self.max_prio(),
    {
        self.max_priority
    }

    /// Whether bundles must be signed.
    pub fn needs_signatures(&self) -> (r: bool)
        ensures
            r == self.signatures_required(),
    {
        self.require_signatures
    }

    /// A validator allowing 1000 rules, priorities up to 10000, unsigned bundles.
    pub fn new() -> (r: Self)
        ensures
            r.max_rules() == 1000,
            r.max_prio() == 10000,
            !r.signatures_required(),
    {
        BundleValidator { max_rules_per_bundle: 1000, max_priority: 10000, require_signatures: false }
    }

    /// Sets the most rules a bundle may hold without a warning.
    pub fn with_max_rules(self, max: usize) -> (r: Self)
        ensures
            r.max_rules() == max,
            r.max_prio() == self.max_prio(),
            r.signatures_required() == self.signatures_required(),
    {
        BundleValidator { max_rules_per_bundle: max, ..self }
    }

    /// Sets the highest priority a rule may have.
    pub fn with_max_priority(self, max: u32) -> (r: Self)
        ensures
            r.max_rules() == self.max_rules(),
            r.max_prio() == max,
            r.signatures_required() == self.signatures_required(),
    {
        BundleValidator { max_priority: max, ..self }
    }

    /// Sets whether bundles must be signed.
    pub fn require_signatures(self, require: bool) -> (r: Self)
        ensures
            r.max_rules() == self.max_rules(),
            r.max_prio() == self.max_prio(),
            r.signatures_required() == require,
    {
        BundleValidator { require_signatures: require, ..self }
    }
}

impl Default for BundleValidator {
    /// The validator of `new`.
    fn default() -> (r: Self)
        ensures
            r.max_rules() == 1000,
            r.max_prio() == 10000,
            !r.signatures_required(),
    {
        BundleValidator::new()
    }
}

/// Prepares bundles for execution.
pub struct BundleCompiler;

/// An error compiling a bundle.
#[derive(Debug, Clone, PartialEq, Eq)]
pub enum CompilationError {
    CompilationFailed(String),
    InvalidBytecode(String),
}

} // verus!

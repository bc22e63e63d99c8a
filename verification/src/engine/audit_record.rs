//! Decision records with provenance hashes for tamper detection, and the in-memory
//! audit trail that keeps the most recent of them.
use vstd::prelude::*;
use vstd::bytes::{lemma_auto_spec_u64_to_from_le_bytes, spec_u64_to_le_bytes, u64_to_le_bytes};
use vstd::string::*;
use vstd::utf8::{encode_utf8, encode_utf8_decode_utf8};
use crate::duration::unix_now_nanos;
use crate::text::{bool_str, bool_text, decimal, hex_text, push_decimal, str_eq, to_hex};

verus! {

/// The SHA-256 digest of a byte string, as the `sha2` crate computes it.
pub uninterp spec fn sha256(data: Seq<u8>) -> Seq<u8>;

/// Calls `Sha256::digest` of the `sha2` crate on the bytes. Claims the result is the
/// digest of exactly those bytes, 32 bytes long; hashing a byte string in pieces gives
/// the digest of their concatenation, so this is also what the crate's incremental
/// `update`/`finalize` gives.
#[verifier::external_body]
fn sha256_digest(data: &[u8]) -> (r: Vec<u8>)
    ensures
        r@ == sha256(data@),
        r@.len() == 32,
{
    <sha2::Sha256 as sha2::Digest>::digest(data).to_vec()
}

/// Sequence number of an audit record.
pub type SequenceNumber = u64;

fn append_bytes(buf: &mut Vec<u8>, more: &[u8])
    ensures
        final(buf)@ == old(buf)@ + more@,
{
    let n = more.len();
    let mut i: usize = 0;
    while i < n
        invariant
            n == more@.len(),
            i <= n,
            buf@ == old(buf)@ + more@.take(i as int),
        decreases n - i,
    {
        buf.push(more[i]);
        proof {
            assert(more@.take(i + 1) =~= more@.take(i as int).push(more@[i as int]));
        }
        i = i + 1;
    }
    assert(more@.take(n as int) =~= more@);
}

fn append_u64(buf: &mut Vec<u8>, x: u64)
    ensures
        final(buf)@ == old(buf)@ + spec_u64_to_le_bytes(x),
{
    let b = u64_to_le_bytes(x);
    append_bytes(buf, b.as_slice());
}

fn append_str(buf: &mut Vec<u8>, s: &str)
    ensures
        final(buf)@ == old(buf)@ + encode_utf8(s@),
{
    append_bytes(buf, s.as_bytes());
}

/// A reference to payload bytes in shared memory.
#[derive(Debug, Clone, PartialEq, Eq, Hash)]
pub struct PayloadRef {
    /// Shared memory segment
    pub shm_id: String,
    /// Offset in the segment
    pub offset: u64,
    /// Size in bytes
    pub size: u64,
    /// Hash of the content, if known
    pub content_hash: Option<String>,
}

/// The view of an optional string.
pub open spec fn opt_view(o: Option<String>) -> Option<Seq<char>> {
    match o {
        Some(s) => Some(s@),
        None => None,
    }
}

impl PayloadRef {
    /// A reference without content hash.
    pub fn new(shm_id: String, offset: u64, size: u64) -> (r: Self)
        ensures
            r.shm_id@ == shm_id@,
            r.offset == offset,
            r.size == size,
            r.content_hash is None,
    {
        PayloadRef { shm_id, offset, size, content_hash: None }
    }

    /// The reference with a content hash.
    pub fn with_hash(self, hash: String) -> (r: Self)
        ensures
            r == (PayloadRef { content_hash: Some(hash), ..self }),
    {
        PayloadRef { content_hash: Some(hash), ..self }
    }

    /// A copy of the reference.
    pub fn duplicate(&self) -> (r: Self)
        ensures
            r.shm_id@ == self.shm_id@,
            r.offset == self.offset,
            r.size == self.size,
            opt_view(r.content_hash) == opt_view(self.content_hash),
    {
        PayloadRef {
            shm_id: self.shm_id.clone(),
            offset: self.offset,
            size: self.size,
            content_hash: match &self.content_hash {
                Some(h) => Some(h.clone()),
                None => None,
            },
        }
    }
}

/// The hashed bytes of payload references: each one's segment, offset and size.
pub open spec fn refs_bytes(refs: Seq<PayloadRef>) -> Seq<u8>
    decreases refs.len(),
{
    if refs.len() == 0 {
        Seq::empty()
    } else {
        refs_bytes(refs.drop_last()) + encode_utf8(refs.last().shm_id@)
            + spec_u64_to_le_bytes(refs.last().offset) + spec_u64_to_le_bytes(refs.last().size)
    }
}

/// Two lists of payload references agree on every hashed and reported field.
pub open spec fn same_refs(a: Seq<PayloadRef>, b: Seq<PayloadRef>) -> bool {
    &&& a.len() == b.len()
    &&& forall|k: int| 0 <= k < a.len() ==> {
        &&& (#[trigger] a[k]).shm_id@ == b[k].shm_id@
        &&& a[k].offset == b[k].offset
        &&& a[k].size == b[k].size
        &&& opt_view(a[k].content_hash) == opt_view(b[k].content_hash)
    }
}

proof fn lemma_same_refs_bytes(a: Seq<PayloadRef>, b: Seq<PayloadRef>)
    requires
        same_refs(a, b),
    ensures
        refs_bytes(a) == refs_bytes(b),
    decreases a.len(),
{
    if a.len() > 0 {
        assert(same_refs(a.drop_last(), b.drop_last())) by {
            assert forall|k: int| 0 <= k < a.drop_last().len() implies {
                &&& (#[trigger] a.drop_last()[k]).shm_id@ == b.drop_last()[k].shm_id@
                &&& a.drop_last()[k].offset == b.drop_last()[k].offset
                &&& a.drop_last()[k].size == b.drop_last()[k].size
                &&& opt_view(a.drop_last()[k].content_hash) == opt_view(b.drop_last()[k].content_hash)
            } by {
                assert(a.drop_last()[k] == a[k]);
                assert(b.drop_last()[k] == b[k]);
            }
        }
        lemma_same_refs_bytes(a.drop_last(), b.drop_last());
        assert(a.last() == a[a.len() - 1]);
    }
}

fn append_refs(buf: &mut Vec<u8>, refs: &Vec<PayloadRef>)
    ensures
        final(buf)@ == old(buf)@ + refs_bytes(refs@),
{
    let n = refs.len();
    let mut i: usize = 0;
    while i < n
        invariant
            n == refs@.len(),
            i <= n,
            buf@ == old(buf)@ + refs_bytes(refs@.take(i as int)),
        decreases n - i,
    {
        let ghost before = buf@;
        append_str(buf, refs[i].shm_id.as_str());
        append_u64(buf, refs[i].offset);
        append_u64(buf, refs[i].size);
        proof {
            let t = refs@.take(i + 1);
            assert(t.drop_last() =~= refs@.take(i as int));
            assert(t.last() == refs@[i as int]);
            assert(buf@ =~= old(buf)@ + refs_bytes(t));
        }
        i = i + 1;
    }
    assert(refs@.take(n as int) =~= refs@);
}

fn copy_refs(refs: &Vec<PayloadRef>) -> (r: Vec<PayloadRef>)
    ensures
        same_refs(r@, refs@),
{
    let mut r: Vec<PayloadRef> = Vec::new();
    let n = refs.len();
    let mut i: usize = 0;
    while i < n
        invariant
            n == refs@.len(),
            i <= n,
            r@.len() == i,
            forall|k: int| 0 <= k < i ==> {
                &&& (#[trigger] r@[k]).shm_id@ == refs@[k].shm_id@
                &&& r@[k].offset == refs@[k].offset
                &&& r@[k].size == refs@[k].size
                &&& opt_view(r@[k].content_hash) == opt_view(refs@[k].content_hash)
            },
        decreases n - i,
    {
        r.push(refs[i].duplicate());
        i = i + 1;
    }
    r
}

/// How much an audit record logs, from only critical decisions to everything.
#[derive(Debug, Clone, Copy, PartialEq, Eq, PartialOrd, Ord, Structural)]
pub enum AuditLogLevel {
    /// Only critical security decisions
    Critical,
    /// Denials and violations
    High,
    /// Every enforcement action
    Medium,
    /// Every decision, allows included
    Low,
    /// Everything
    Trace,
}

/// The rank of a level: 0 for critical up to 4 for trace.
pub open spec fn level_rank(l: AuditLogLevel) -> int {
    match l {
        AuditLogLevel::Critical => 0,
        AuditLogLevel::High => 1,
        AuditLogLevel::Medium => 2,
        AuditLogLevel::Low => 3,
        AuditLogLevel::Trace => 4,
    }
}

impl AuditLogLevel {
    /// The rank of the level: 0 for critical up to 4 for trace.
    pub fn rank(&self) -> (r: u8)
        ensures
            r == level_rank(*self),
    {
        match self {
            AuditLogLevel::Critical => 0,
            AuditLogLevel::High => 1,
            AuditLogLevel::Medium => 2,
            AuditLogLevel::Low => 3,
            AuditLogLevel::Trace => 4,
        }
    }

    /// Whether a record of this level is logged when the configured level is given:
    /// when it is at most as verbose.
    pub fn should_log(&self, configured_level: AuditLogLevel) -> (r: bool)
        ensures
            r == (level_rank(*self) <= level_rank(configured_level)),
    {
        self.rank() <= configured_level.rank()
    }
}

/// The outcome of evaluating a rule.
#[derive(Debug, Clone, PartialEq, Eq)]
pub enum DecisionOutcome {
    /// Let through, with optional metadata
    Allow { metadata: Option<Vec<(String, String)>> },
    /// Blocked
    Deny { reason: String, code: Option<String> },
    /// Payload rewritten
    Rewrite { transform_type: String },
    /// Fields redacted
    Redact { redacted_fields: Vec<String> },
    /// Sent elsewhere
    Route { destination: String },
    /// Sidecar launched
    SpawnSidecar { sidecar_type: String },
    /// Rate limit applied
    RateLimit { scope: String, action: String },
    /// Sandboxed module run
    SandboxExecute { sandbox_type: String, result: String },
    /// A constraint was violated
    ConstraintViolation { violation_type: String, fail_open: bool },
    /// Evaluation failed
    Error { message: String, code: String },
    /// The rule did not match
    Skip,
}

/// The one-line summary of an outcome.
pub open spec fn outcome_summary(o: DecisionOutcome) -> Seq<char> {
    match o {
        DecisionOutcome::Allow { .. } => "ALLOW"@,
        DecisionOutcome::Deny { reason, .. } => "DENY: "@ + reason@,
        DecisionOutcome::Rewrite { transform_type } => "REWRITE: "@ + transform_type@,
        DecisionOutcome::Redact { redacted_fields } => "REDACT: "@ + decimal(redacted_fields@.len()) + " fields"@,
        DecisionOutcome::Route { destination } => "ROUTE: "@ + destination@,
        DecisionOutcome::SpawnSidecar { sidecar_type } => "SIDECAR: "@ + sidecar_type@,
        DecisionOutcome::RateLimit { action, .. } => "RATELIMIT: "@ + action@,
        DecisionOutcome::SandboxExecute { result, .. } => "SANDBOX: "@ + result@,
        DecisionOutcome::ConstraintViolation { violation_type, fail_open } => "VIOLATION: "@
            + violation_type@ + " (fail_open="@ + bool_text(fail_open) + ")"@,
        DecisionOutcome::Error { code, .. } => "ERROR: "@ + code@,
        DecisionOutcome::Skip => "SKIP"@,
    }
}

impl DecisionOutcome {
    /// Whether the outcome blocks the request: a denial, an error, or a violation that
    /// does not fail open.
    pub fn is_blocking(&self) -> (r: bool)
        ensures
            r == (self is Deny || self is Error
                || (self matches DecisionOutcome::ConstraintViolation { fail_open, .. } && fail_open == false)),
    {
        match self {
            DecisionOutcome::Deny { .. } => true,
            DecisionOutcome::Error { .. } => true,
            DecisionOutcome::ConstraintViolation { fail_open, .. } => !*fail_open,
            _ => false,
        }
    }

    /// Whether the outcome changes the request: a rewrite, redaction or re-routing.
    pub fn is_modification(&self) -> (r: bool)
        ensures
            r == (self is Rewrite || self is Redact || self is Route),
    {
        match self {
            DecisionOutcome::Rewrite { .. } | DecisionOutcome::Redact { .. } | DecisionOutcome::Route { .. } => true,
            _ => false,
        }
    }

    /// A one-line summary, such as `DENY: reason` or `REDACT: 2 fields`.
    pub fn summary(&self) -> (r: String)
        ensures
            r@ == outcome_summary(*self),
    {
        let mut s = String::new();
        match self {
            DecisionOutcome::Allow { .. } => {
                s.append("ALLOW");
            },
            DecisionOutcome::Deny { reason, .. } => {
                s.append("DENY: ");
                s.append(reason.as_str());
            },
            DecisionOutcome::Rewrite { transform_type } => {
                s.append("REWRITE: ");
                s.append(transform_type.as_str());
            },
            DecisionOutcome::Redact { redacted_fields } => {
                s.append("REDACT: ");
                push_decimal(&mut s, redacted_fields.len() as u64);
                s.append(" fields");
            },
            DecisionOutcome::Route { destination } => {
                s.append("ROUTE: ");
                s.append(destination.as_str());
            },
            DecisionOutcome::SpawnSidecar { sidecar_type } => {
                s.append("SIDECAR: ");
                s.append(sidecar_type.as_str());
            },
            DecisionOutcome::RateLimit { action, .. } => {
                s.append("RATELIMIT: ");
                s.append(action.as_str());
            },
            DecisionOutcome::SandboxExecute { result, .. } => {
                s.append("SANDBOX: ");
                s.append(result.as_str());
            },
            DecisionOutcome::ConstraintViolation { violation_type, fail_open } => {
                s.append("VIOLATION: ");
                s.append(violation_type.as_str());
                s.append(" (fail_open=");
                s.append(bool_str(*fail_open));
                s.append(")");
            },
            DecisionOutcome::Error { code, .. } => {
                s.append("ERROR: ");
                s.append(code.as_str());
            },
            DecisionOutcome::Skip => {
                s.append("SKIP");
            },
        }
        proof {
            assert(s@ =~= outcome_summary(*self));
        }
        s
    }
}

/// The instants of one evaluation, each in nanoseconds since the Unix epoch.
#[derive(Debug, Clone, Copy, PartialEq, Eq, Structural)]
pub struct EvaluationTimestamps {
    /// Event received
    pub received_at: u128,
    /// Evaluation started
    pub eval_started_at: u128,
    /// Evaluation completed
    pub eval_completed_at: u128,
    /// Decision final
    pub decision_at: u128,
    /// Audit record made
    pub audit_created_at: u128,
}

/// Whole microseconds from `from` to `to`, 0 when `to` is earlier, as a `u64` (the low
/// 64 bits, as a cast gives them).
pub open spec fn micros_between(from: u128, to: u128) -> u64 {
    if to >= from {
        (((to - from) as u128) / 1000) as u64
    } else {
        0
    }
}

impl EvaluationTimestamps {
    /// Timestamps for an event received at `received_at`; the other instants are now.
    pub fn new(received_at: u128) -> (r: Self)
        ensures
            r.received_at == received_at,
    {
        EvaluationTimestamps {
            received_at,
            eval_started_at: unix_now_nanos(),
            eval_completed_at: unix_now_nanos(),
            decision_at: unix_now_nanos(),
            audit_created_at: unix_now_nanos(),
        }
    }

    /// Timestamps all at the current instant.
    pub fn now() -> (r: Self)
        ensures
            r.eval_started_at == r.received_at,
            r.eval_completed_at == r.received_at,
            r.decision_at == r.received_at,
            r.audit_created_at == r.received_at,
    {
        let now = unix_now_nanos();
        EvaluationTimestamps {
            received_at: now,
            eval_started_at: now,
            eval_completed_at: now,
            decision_at: now,
            audit_created_at: now,
        }
    }

    /// Microseconds from the start to the end of evaluation.
    pub fn total_eval_time_us(&self) -> (r: u64)
        ensures
            r == micros_between(self.eval_started_at, self.eval_completed_at),
    {
        if self.eval_completed_at >= self.eval_started_at {
            ((self.eval_completed_at - self.eval_started_at) / 1000) as u64
        } else {
            0
        }
    }

    /// Microseconds from receipt to decision.
    pub fn total_processing_time_us(&self) -> (r: u64)
        ensures
            r == micros_between(self.received_at, self.decision_at),
    {
        if self.decision_at >= self.received_at {
            ((self.decision_at - self.received_at) / 1000) as u64
        } else {
            0
        }
    }

    /// Milliseconds since the epoch at receipt.
    pub fn received_at_millis(&self) -> (r: u64)
        ensures
            r == (self.received_at / 1_000_000) as u64,
    {
        (self.received_at / 1_000_000) as u64
    }
}

/// The bytes a compact record's hash covers: sequence number, rule id, version,
/// decision, timestamp, then each payload reference.
pub open spec fn compact_bytes(
    seq: u64,
    rule_id: Seq<char>,
    rule_version: u64,
    decision: Seq<char>,
    timestamp_ms: u64,
    refs: Seq<PayloadRef>,
) -> Seq<u8> {
    spec_u64_to_le_bytes(seq) + encode_utf8(rule_id) + spec_u64_to_le_bytes(rule_version)
        + encode_utf8(decision) + spec_u64_to_le_bytes(timestamp_ms) + refs_bytes(refs)
}

/// A minimal record of one decision, for fast logging.
#[derive(Debug, Clone)]
pub struct CompactDecisionRecord {
    /// Sequence number
    pub seq: SequenceNumber,
    /// Deciding rule
    pub rule_id: String,
    /// Its version
    pub rule_version: u64,
    /// The decision
    pub decision: String,
    /// When, in milliseconds since the epoch
    pub timestamp_ms: u64,
    /// Hex SHA-256 of the fields above
    pub decision_hash: String,
    /// Payload references
    pub payload_refs: Vec<PayloadRef>,
}

impl CompactDecisionRecord {
    /// The hash the record's fields give.
    pub open spec fn expected_hash(&self) -> Seq<char> {
        hex_text(sha256(compact_bytes(self.seq, self.rule_id@, self.rule_version, self.decision@, self.timestamp_ms, self.payload_refs@)))
    }

    /// A record stamped now, with its hash computed.
    pub fn new(
        seq: SequenceNumber,
        rule_id: String,
        rule_version: u64,
        decision: String,
        payload_refs: Vec<PayloadRef>,
    ) -> (r: Self)
        ensures
            r.seq == seq,
            r.rule_id@ == rule_id@,
            r.rule_version == rule_version,
            r.decision@ == decision@,
            r.payload_refs@ == payload_refs@,
            r.decision_hash@ == r.expected_hash(),
    {
        let timestamp_ms = (unix_now_nanos() / 1_000_000) as u64;
        let mut record = CompactDecisionRecord {
            seq,
            rule_id,
            rule_version,
            decision,
            timestamp_ms,
            decision_hash: String::new(),
            payload_refs,
        };
        record.decision_hash = record.compute_hash();
        record
    }

    /// The hex SHA-256 of the sequence number, rule id, version, decision, timestamp and
    /// payload references.
    pub fn compute_hash(&self) -> (r: String)
        ensures
            r@ == self.expected_hash(),
    {
        let mut buf: Vec<u8> = Vec::new();
        append_u64(&mut buf, self.seq);
        append_str(&mut buf, self.rule_id.as_str());
        append_u64(&mut buf, self.rule_version);
        append_str(&mut buf, self.decision.as_str());
        append_u64(&mut buf, self.timestamp_ms);
        append_refs(&mut buf, &self.payload_refs);
        proof {
            assert(buf@ =~= compact_bytes(self.seq, self.rule_id@, self.rule_version, self.decision@, self.timestamp_ms, self.payload_refs@));
        }
        let digest = sha256_digest(buf.as_slice());
        to_hex(&digest)
    }

    /// Whether the stored hash is the one the fields give.
    pub fn verify_hash(&self) -> (r: bool)
        ensures
            r == (self.decision_hash@ == self.expected_hash()),
    {
        let computed = self.compute_hash();
        str_eq(computed.as_str(), self.decision_hash.as_str())
    }

    /// The full record with the given outcome, timestamps and context; the compact
    /// record's hash becomes its provenance hash.
    pub fn to_full_record(self, outcome: DecisionOutcome, timestamps: EvaluationTimestamps, context: AuditContext) -> (r: AuditRecord)
        ensures
            r.seq == self.seq,
            r.rule_id == self.rule_id,
            r.rule_version == self.rule_version,
            r.bundle_id is None,
            r.outcome == outcome,
            r.timestamps == timestamps,
            r.provenance_hash == self.decision_hash,
            r.payload_refs == self.payload_refs,
            r.context == context,
            r.log_level == AuditLogLevel::Low,
            r.emit_event,
            r.explanation is None,
            r.metadata@.len() == 0,
    {
        AuditRecord {
            seq: self.seq,
            rule_id: self.rule_id,
            rule_version: self.rule_version,
            bundle_id: None,
            outcome,
            timestamps,
            provenance_hash: self.decision_hash,
            payload_refs: self.payload_refs,
            context,
            log_level: AuditLogLevel::Low,
            emit_event: true,
            explanation: None,
            metadata: Vec::new(),
        }
    }
}

/// Execution statistics of an evaluation.
#[derive(Debug, Clone, Copy, PartialEq, Eq, Structural)]
pub struct ExecutionStatistics {
    /// Evaluation time in microseconds
    pub eval_time_us: u64,
    /// Memory used in bytes
    pub memory_used_bytes: u64,
    /// CPU time in microseconds
    pub cpu_time_us: u64,
    /// Rules evaluated
    pub rules_evaluated: u32,
    /// Constraint checks made
    pub constraint_checks: u32,
}

impl ExecutionStatistics {
    /// All counts zero.
    pub fn new() -> (r: Self)
        ensures
            r == (ExecutionStatistics { eval_time_us: 0, memory_used_bytes: 0, cpu_time_us: 0, rules_evaluated: 0, constraint_checks: 0 }),
    {
        ExecutionStatistics { eval_time_us: 0, memory_used_bytes: 0, cpu_time_us: 0, rules_evaluated: 0, constraint_checks: 0 }
    }
}

impl Default for ExecutionStatistics {
    /// All counts zero.
    fn default() -> (r: Self)
        ensures
            r == (ExecutionStatistics { eval_time_us: 0, memory_used_bytes: 0, cpu_time_us: 0, rules_evaluated: 0, constraint_checks: 0 }),
    {
        ExecutionStatistics::new()
    }
}

/// The circumstances of a decision.
#[derive(Debug, Clone)]
pub struct AuditContext {
    /// Source agent
    pub source_agent: Option<String>,
    /// Destination agent
    pub dest_agent: Option<String>,
    /// Flow
    pub flow_id: Option<String>,
    /// Payload type
    pub payload_dtype: Option<String>,
    /// Enforcement class of the rule
    pub enforcement_class: Option<String>,
    /// Constraint violations
    pub constraint_violations: Vec<String>,
    /// Execution statistics
    pub exec_stats: Option<ExecutionStatistics>,
    /// Tenant
    pub tenant_id: Option<String>,
    /// Request id for tracing
    pub request_id: Option<String>,
}

impl AuditContext {
    /// Nothing known.
    pub open spec fn is_blank(&self) -> bool {
        &&& self.source_agent is None
        &&& self.dest_agent is None
        &&& self.flow_id is None
        &&& self.payload_dtype is None
        &&& self.enforcement_class is None
        &&& self.constraint_violations@.len() == 0
        &&& self.exec_stats is None
        &&& self.tenant_id is None
        &&& self.request_id is None
    }

    /// A context with nothing known.
    pub fn new() -> (r: Self)
        ensures
            r.is_blank(),
    {
        AuditContext {
            source_agent: None,
            dest_agent: None,
            flow_id: None,
            payload_dtype: None,
            enforcement_class: None,
            constraint_violations: Vec::new(),
            exec_stats: None,
            tenant_id: None,
            request_id: None,
        }
    }

    /// A builder starting from a blank context.
    pub fn builder() -> (r: AuditContextBuilder)
        ensures
            r.draft().is_blank(),
    {
        AuditContextBuilder::new()
    }
}

impl Default for AuditContext {
    /// A context with nothing known.
    fn default() -> (r: Self)
        ensures
            r.is_blank(),
    {
        AuditContext::new()
    }
}

/// Step-by-step construction of an audit context.
pub struct AuditContextBuilder {
    context: AuditContext,
}

impl AuditContextBuilder {
    /// The context `build` would give now.
    pub closed spec fn draft(&self) -> AuditContext {
        self.context
    }

    /// A builder starting from a blank context.
    pub fn new() -> (r: Self)
        ensures
            r.draft().is_blank(),
    {
        AuditContextBuilder { context: AuditContext::new() }
    }

    /// Sets the source agent.
    pub fn source_agent(self, agent: String) -> (r: Self)
        ensures
            r.draft() == (AuditContext { source_agent: Some(agent), ..self.draft() }),
    {
        let mut b = self;
        b.context.source_agent = Some(agent);
        b
    }

    /// Sets the destination agent.
    pub fn dest_agent(self, agent: String) -> (r: Self)
        ensures
            r.draft() == (AuditContext { dest_agent: Some(agent), ..self.draft() }),
    {
        let mut b = self;
        b.context.dest_agent = Some(agent);
        b
    }

    /// Sets the flow.
    pub fn flow_id(self, flow: String) -> (r: Self)
        ensures
            r.draft() == (AuditContext { flow_id: Some(flow), ..self.draft() }),
    {
        let mut b = self;
        b.context.flow_id = Some(flow);
        b
    }

    /// Sets the payload type.
    pub fn payload_dtype(self, dtype: String) -> (r: Self)
        ensures
            r.draft() == (AuditContext { payload_dtype: Some(dtype), ..self.draft() }),
    {
        let mut b = self;
        b.context.payload_dtype = Some(dtype);
        b
    }

    /// Sets the enforcement class.
    pub fn enforcement_class(self, class: String) -> (r: Self)
        ensures
            r.draft() == (AuditContext { enforcement_class: Some(class), ..self.draft() }),
    {
        let mut b = self;
        b.context.enforcement_class = Some(class);
        b
    }

    /// Appends a constraint violation.
    pub fn add_violation(self, violation: String) -> (r: Self)
        ensures
            r.draft().constraint_violations@ == self.draft().constraint_violations@.push(violation),
            r.draft().source_agent == self.draft().source_agent,
            r.draft().dest_agent == self.draft().dest_agent,
            r.draft().flow_id == self.draft().flow_id,
            r.draft().payload_dtype == self.draft().payload_dtype,
            r.draft().enforcement_class == self.draft().enforcement_class,
            r.draft().exec_stats == self.draft().exec_stats,
            r.draft().tenant_id == self.draft().tenant_id,
            r.draft().request_id == self.draft().request_id,
    {
        let mut b = self;
        b.context.constraint_violations.push(violation);
        b
    }

    /// Sets the execution statistics.
    pub fn exec_stats(self, stats: ExecutionStatistics) -> (r: Self)
        ensures
            r.draft() == (AuditContext { exec_stats: Some(stats), ..self.draft() }),
    {
        let mut b = self;
        b.context.exec_stats = Some(stats);
        b
    }

    /// Sets the tenant.
    pub fn tenant_id(self, tenant: String) -> (r: Self)
        ensures
            r.draft() == (AuditContext { tenant_id: Some(tenant), ..self.draft() }),
    {
        let mut b = self;
        b.context.tenant_id = Some(tenant);
        b
    }

    /// Sets the request id.
    pub fn request_id(self, request: String) -> (r: Self)
        ensures
            r.draft() == (AuditContext { request_id: Some(request), ..self.draft() }),
    {
        let mut b = self;
        b.context.request_id = Some(request);
        b
    }

    /// The context.
    pub fn build(self) -> (r: AuditContext)
        ensures
            r == self.draft(),
    {
        self.context
    }
}

impl Default for AuditContextBuilder {
    /// A builder starting from a blank context.
    fn default() -> (r: Self)
        ensures
            r.draft().is_blank(),
    {
        AuditContextBuilder::new()
    }
}

/// Key-value pairs read as a map: a later pair for a key overrides an earlier one.
pub open spec fn pairs_map(pairs: Seq<(String, String)>) -> Map<Seq<char>, Seq<char>>
    decreases pairs.len(),
{
    if pairs.len() == 0 {
        Map::empty()
    } else {
        pairs_map(pairs.drop_last()).insert(pairs.last().0@, pairs.last().1@)
    }
}

/// The pairs whose key differs from `key`, in order.
pub open spec fn pairs_without(pairs: Seq<(String, String)>, key: Seq<char>) -> Seq<(String, String)>
    decreases pairs.len(),
{
    if pairs.len() == 0 {
        Seq::empty()
    } else if pairs.last().0@ == key {
        pairs_without(pairs.drop_last(), key)
    } else {
        pairs_without(pairs.drop_last(), key).push(pairs.last())
    }
}

proof fn lemma_pairs_without(pairs: Seq<(String, String)>, key: Seq<char>)
    ensures
        pairs_map(pairs_without(pairs, key)) == pairs_map(pairs).remove(key),
    decreases pairs.len(),
{
    if pairs.len() > 0 {
        lemma_pairs_without(pairs.drop_last(), key);
        let rest = pairs_without(pairs.drop_last(), key);
        if pairs.last().0@ != key {
            assert(rest.push(pairs.last()).drop_last() =~= rest);
            assert(pairs_map(rest.push(pairs.last())) =~= pairs_map(pairs).remove(key));
        } else {
            assert(pairs_map(rest) =~= pairs_map(pairs).remove(key));
        }
    } else {
        assert(pairs_map(pairs).remove(key) =~= Map::empty());
    }
}

/// Sets `key` to `value` in a list of pairs read as a map, keeping one pair per key.
fn upsert_pair(pairs: &mut Vec<(String, String)>, key: String, value: String)
    ensures
        pairs_map(final(pairs)@) == pairs_map(old(pairs)@).insert(key@, value@),
{
    let mut kept: Vec<(String, String)> = Vec::new();
    let n = pairs.len();
    let mut i: usize = 0;
    while i < n
        invariant
            n == pairs@.len(),
            i <= n,
            kept@ == pairs_without(pairs@.take(i as int), key@),
        decreases n - i,
    {
        proof {
            let t = pairs@.take(i + 1);
            assert(t.drop_last() =~= pairs@.take(i as int));
            assert(t.last() == pairs@[i as int]);
        }
        if !str_eq(pairs[i].0.as_str(), key.as_str()) {
            let k = pairs[i].0.clone();
            let v = pairs[i].1.clone();
            kept.push((k, v));
            proof {
                assert(kept@.last().0@ == pairs@[i as int].0@);
                assert(kept@ =~= pairs_without(pairs@.take(i + 1), key@));
            }
        }
        i = i + 1;
    }
    proof {
        assert(pairs@.take(n as int) =~= pairs@);
        lemma_pairs_without(pairs@, key@);
    }
    let ghost before = kept@;
    kept.push((key, value));
    proof {
        assert(kept@.drop_last() =~= before);
        assert(pairs_map(kept@) =~= pairs_map(pairs@).insert(key@, value@));
    }
    *pairs = kept;
}

/// The bytes a provenance hash covers: sequence number, rule id, version, outcome
/// summary and the receipt time in milliseconds.
pub open spec fn provenance_bytes(
    seq: u64,
    rule_id: Seq<char>,
    rule_version: u64,
    outcome: DecisionOutcome,
    timestamps: EvaluationTimestamps,
) -> Seq<u8> {
    spec_u64_to_le_bytes(seq) + encode_utf8(rule_id) + spec_u64_to_le_bytes(rule_version)
        + encode_utf8(outcome_summary(outcome)) + spec_u64_to_le_bytes(receipt_millis(timestamps))
}

/// The provenance hash of a decision: hex SHA-256 of its provenance bytes.
pub open spec fn provenance_text(
    seq: u64,
    rule_id: Seq<char>,
    rule_version: u64,
    outcome: DecisionOutcome,
    timestamps: EvaluationTimestamps,
) -> Seq<char> {
    hex_text(sha256(provenance_bytes(seq, rule_id, rule_version, outcome, timestamps)))
}

/// A full audit record of one decision.
#[derive(Debug, Clone)]
pub struct AuditRecord {
    /// Sequence number
    pub seq: SequenceNumber,
    /// Deciding rule
    pub rule_id: String,
    /// Its version
    pub rule_version: u64,
    /// Its bundle, if any
    pub bundle_id: Option<String>,
    /// The decision
    pub outcome: DecisionOutcome,
    /// When things happened
    pub timestamps: EvaluationTimestamps,
    /// Hex SHA-256 over the decision
    pub provenance_hash: String,
    /// Payload references
    pub payload_refs: Vec<PayloadRef>,
    /// Circumstances
    pub context: AuditContext,
    /// Level at which the record is logged
    pub log_level: AuditLogLevel,
    /// Emit an event for the record
    pub emit_event: bool,
    /// Human-readable explanation
    pub explanation: Option<String>,
    /// Extra key-value data, one pair per key
    pub metadata: Vec<(String, String)>,
}

/// The one-line summary of an audit record.
pub open spec fn record_summary_text(seq: u64, rule_id: Seq<char>, rule_version: u64, outcome: DecisionOutcome, eval_us: u64) -> Seq<char> {
    "seq="@ + decimal(seq as nat) + " rule="@ + rule_id + " v"@ + decimal(rule_version as nat)
        + " outcome="@ + outcome_summary(outcome) + " time="@ + decimal(eval_us as nat) + "μs"@
}

impl AuditRecord {
    /// The provenance hash the record's fields give.
    pub open spec fn expected_provenance(&self) -> Seq<char> {
        provenance_text(self.seq, self.rule_id@, self.rule_version, self.outcome, self.timestamps)
    }

    /// A record stamped now, with its provenance hash, blank context, log level low,
    /// emitting an event.
    pub fn new(seq: SequenceNumber, rule_id: String, rule_version: u64, outcome: DecisionOutcome) -> (r: Self)
        ensures
            r.seq == seq,
            r.rule_id@ == rule_id@,
            r.rule_version == rule_version,
            r.bundle_id is None,
            r.outcome == outcome,
            r.provenance_hash@ == r.expected_provenance(),
            r.payload_refs@.len() == 0,
            r.context.is_blank(),
            r.log_level == AuditLogLevel::Low,
            r.emit_event,
            r.explanation is None,
            r.metadata@.len() == 0,
    {
        let timestamps = EvaluationTimestamps::now();
        let provenance_hash = AuditRecord::compute_provenance_hash(seq, rule_id.as_str(), rule_version, &outcome, &timestamps);
        AuditRecord {
            seq,
            rule_id,
            rule_version,
            bundle_id: None,
            outcome,
            timestamps,
            provenance_hash,
            payload_refs: Vec::new(),
            context: AuditContext::new(),
            log_level: AuditLogLevel::Low,
            emit_event: true,
            explanation: None,
            metadata: Vec::new(),
        }
    }

    /// A builder for a record with this sequence number, rule and version.
    pub fn builder(seq: SequenceNumber, rule_id: String, rule_version: u64) -> (r: AuditRecordBuilder)
        ensures
            r.seq() == seq,
            r.rule_id()@ == rule_id@,
            r.rule_version() == rule_version,
            r.is_fresh(),
    {
        AuditRecordBuilder::new(seq, rule_id, rule_version)
    }

    /// The hex SHA-256 of the sequence number, rule id, version, outcome summary and
    /// receipt time in milliseconds.
    pub fn compute_provenance_hash(
        seq: SequenceNumber,
        rule_id: &str,
        rule_version: u64,
        outcome: &DecisionOutcome,
        timestamps: &EvaluationTimestamps,
    ) -> (r: String)
        ensures
            r@ == provenance_text(seq, rule_id@, rule_version, *outcome, *timestamps),
    {
        let mut buf: Vec<u8> = Vec::new();
        append_u64(&mut buf, seq);
        append_str(&mut buf, rule_id);
        append_u64(&mut buf, rule_version);
        let summary = outcome.summary();
        append_str(&mut buf, summary.as_str());
        append_u64(&mut buf, timestamps.received_at_millis());
        proof {
            assert(buf@ =~= provenance_bytes(seq, rule_id@, rule_version, *outcome, *timestamps));
        }
        let digest = sha256_digest(buf.as_slice());
        to_hex(&digest)
    }

    /// Whether the stored provenance hash is the one the fields give.
    pub fn verify_provenance(&self) -> (r: bool)
        ensures
            r == (self.provenance_hash@ == self.expected_provenance()),
    {
        let computed = AuditRecord::compute_provenance_hash(self.seq, self.rule_id.as_str(), self.rule_version, &self.outcome, &self.timestamps);
        str_eq(computed.as_str(), self.provenance_hash.as_str())
    }

    /// The compact form: the outcome summary as decision, the receipt time in
    /// milliseconds, and the provenance hash as decision hash.
    pub fn to_compact(&self) -> (r: CompactDecisionRecord)
        ensures
            r.seq == self.seq,
            r.rule_id@ == self.rule_id@,
            r.rule_version == self.rule_version,
            r.decision@ == outcome_summary(self.outcome),
            r.timestamp_ms == (self.timestamps.received_at / 1_000_000) as u64,
            r.decision_hash@ == self.provenance_hash@,
            same_refs(r.payload_refs@, self.payload_refs@),
    {
        CompactDecisionRecord {
            seq: self.seq,
            rule_id: self.rule_id.clone(),
            rule_version: self.rule_version,
            decision: self.outcome.summary(),
            timestamp_ms: self.timestamps.received_at_millis(),
            decision_hash: self.provenance_hash.clone(),
            payload_refs: copy_refs(&self.payload_refs),
        }
    }

    /// Whether the record is logged at the configured level.
    pub fn should_log(&self, configured_level: AuditLogLevel) -> (r: bool)
        ensures
            r == (level_rank(self.log_level) <= level_rank(configured_level)),
    {
        self.log_level.should_log(configured_level)
    }

    /// A one-line summary: sequence number, rule, version, outcome and evaluation time.
    pub fn summary(&self) -> (r: String)
        ensures
            r@ == record_summary_text(self.seq, self.rule_id@, self.rule_version, self.outcome,
                micros_between(self.timestamps.eval_started_at, self.timestamps.eval_completed_at)),
    {
        let mut s = String::new();
        s.append("seq=");
        push_decimal(&mut s, self.seq);
        s.append(" rule=");
        s.append(self.rule_id.as_str());
        s.append(" v");
        push_decimal(&mut s, self.rule_version);
        s.append(" outcome=");
        let o = self.outcome.summary();
        s.append(o.as_str());
        s.append(" time=");
        push_decimal(&mut s, self.timestamps.total_eval_time_us());
        s.append("μs");
        proof {
            assert(s@ =~= record_summary_text(self.seq, self.rule_id@, self.rule_version, self.outcome,
                micros_between(self.timestamps.eval_started_at, self.timestamps.eval_completed_at)));
        }
        s
    }

    /// Sets a metadata key.
    pub fn add_metadata(&mut self, key: String, value: String)
        ensures
            pairs_map(final(self).metadata@) == pairs_map(old(self).metadata@).insert(key@, value@),
            final(self).seq == old(self).seq,
            final(self).rule_id == old(self).rule_id,
            final(self).rule_version == old(self).rule_version,
            final(self).outcome == old(self).outcome,
            final(self).timestamps == old(self).timestamps,
            final(self).provenance_hash == old(self).provenance_hash,
            final(self).explanation == old(self).explanation,
    {
        upsert_pair(&mut self.metadata, key, value);
    }

    /// Sets the explanation.
    pub fn set_explanation(&mut self, explanation: String)
        ensures
            *final(self) == (AuditRecord { explanation: Some(explanation), ..*old(self) }),
    {
        self.explanation = Some(explanation);
    }
}

/// Step-by-step construction of an audit record; `build` needs an outcome.
pub struct AuditRecordBuilder {
    seq: SequenceNumber,
    rule_id: String,
    rule_version: u64,
    bundle_id: Option<String>,
    outcome: Option<DecisionOutcome>,
    timestamps: Option<EvaluationTimestamps>,
    payload_refs: Vec<PayloadRef>,
    context: AuditContext,
    log_level: AuditLogLevel,
    emit_event: bool,
    explanation: Option<String>,
    metadata: Vec<(String, String)>,
}

impl AuditRecordBuilder {
    /// The sequence number.
    pub closed spec fn seq(&self) -> u64 {
        self.seq
    }

    /// The rule id.
    pub closed spec fn rule_id(&self) -> String {
        self.rule_id
    }

    /// The rule version.
    pub closed spec fn rule_version(&self) -> u64 {
        self.rule_version
    }

    /// The bundle id set so far.
    pub closed spec fn bundle(&self) -> Option<String> {
        self.bundle_id
    }

    /// The outcome set so far.
    pub closed spec fn outcome_set(&self) -> Option<DecisionOutcome> {
        self.outcome
    }

    /// The timestamps set so far.
    pub closed spec fn timestamps_set(&self) -> Option<EvaluationTimestamps> {
        self.timestamps
    }

    /// The payload references added so far.
    pub closed spec fn refs(&self) -> Seq<PayloadRef> {
        self.payload_refs@
    }

    /// The context set so far.
    pub closed spec fn context_set(&self) -> AuditContext {
        self.context
    }

    /// The log level set so far.
    pub closed spec fn level(&self) -> AuditLogLevel {
        self.log_level
    }

    /// Whether an event is emitted.
    pub closed spec fn emits(&self) -> bool {
        self.emit_event
    }

    /// The explanation set so far.
    pub closed spec fn explanation_set(&self) -> Option<String> {
        self.explanation
    }

    /// The metadata set so far, as a map.
    pub closed spec fn metadata_map(&self) -> Map<Seq<char>, Seq<char>> {
        pairs_map(self.metadata@)
    }

    /// Nothing but the identity set: no bundle, outcome, timestamps, references,
    /// explanation or metadata; blank context; level low; emitting an event.
    pub open spec fn is_fresh(&self) -> bool {
        &&& self.bundle() is None
        &&& self.outcome_set() is None
        &&& self.timestamps_set() is None
        &&& self.refs().len() == 0
        &&& self.context_set().is_blank()
        &&& self.level() == AuditLogLevel::Low
        &&& self.emits()
        &&& self.explanation_set() is None
        &&& self.metadata_map() == Map::<Seq<char>, Seq<char>>::empty()
    }

    /// The other fields are as in `old`.
    pub open spec fn same_except(&self, old: &AuditRecordBuilder) -> bool {
        &&& self.seq() == old.seq()
        &&& self.rule_id() == old.rule_id()
        &&& self.rule_version() == old.rule_version()
    }

    /// A builder for a record with this sequence number, rule and version.
    pub fn new(seq: SequenceNumber, rule_id: String, rule_version: u64) -> (r: Self)
        ensures
            r.seq() == seq,
            r.rule_id()@ == rule_id@,
            r.rule_version() == rule_version,
            r.is_fresh(),
    {
        let r = AuditRecordBuilder {
            seq,
            rule_id,
            rule_version,
            bundle_id: None,
            outcome: None,
            timestamps: None,
            payload_refs: Vec::new(),
            context: AuditContext::new(),
            log_level: AuditLogLevel::Low,
            emit_event: true,
            explanation: None,
            metadata: Vec::new(),
        };
        assert(r.metadata_map() =~= Map::<Seq<char>, Seq<char>>::empty());
        r
    }

    /// Sets the bundle id.
    pub fn bundle_id(self, bundle_id: String) -> (r: Self)
        ensures
            r.bundle() == Some(bundle_id),
            r.same_except(&self),
            r.outcome_set() == self.outcome_set(),
            r.timestamps_set() == self.timestamps_set(),
            r.refs() == self.refs(),
            r.context_set() == self.context_set(),
            r.level() == self.level(),
            r.emits() == self.emits(),
            r.explanation_set() == self.explanation_set(),
            r.metadata_map() == self.metadata_map(),
    {
        AuditRecordBuilder { bundle_id: Some(bundle_id), ..self }
    }

    /// Sets the outcome.
    pub fn outcome(self, outcome: DecisionOutcome) -> (r: Self)
        ensures
            r.outcome_set() == Some(outcome),
            r.same_except(&self),
            r.bundle() == self.bundle(),
            r.timestamps_set() == self.timestamps_set(),
            r.refs() == self.refs(),
            r.context_set() == self.context_set(),
            r.level() == self.level(),
            r.emits() == self.emits(),
            r.explanation_set() == self.explanation_set(),
            r.metadata_map() == self.metadata_map(),
    {
        AuditRecordBuilder { outcome: Some(outcome), ..self }
    }

    /// Sets the timestamps.
    pub fn timestamps(self, timestamps: EvaluationTimestamps) -> (r: Self)
        ensures
            r.timestamps_set() == Some(timestamps),
            r.same_except(&self),
            r.bundle() == self.bundle(),
            r.outcome_set() == self.outcome_set(),
            r.refs() == self.refs(),
            r.context_set() == self.context_set(),
            r.level() == self.level(),
            r.emits() == self.emits(),
            r.explanation_set() == self.explanation_set(),
            r.metadata_map() == self.metadata_map(),
    {
        AuditRecordBuilder { timestamps: Some(timestamps), ..self }
    }

    /// Appends a payload reference.
    pub fn add_payload_ref(self, payload_ref: PayloadRef) -> (r: Self)
        ensures
            r.refs() == self.refs().push(payload_ref),
            r.same_except(&self),
            r.bundle() == self.bundle(),
            r.outcome_set() == self.outcome_set(),
            r.timestamps_set() == self.timestamps_set(),
            r.context_set() == self.context_set(),
            r.level() == self.level(),
            r.emits() == self.emits(),
            r.explanation_set() == self.explanation_set(),
            r.metadata_map() == self.metadata_map(),
    {
        let mut b = self;
        b.payload_refs.push(payload_ref);
        b
    }

    /// Sets the context.
    pub fn context(self, context: AuditContext) -> (r: Self)
        ensures
            r.context_set() == context,
            r.same_except(&self),
            r.bundle() == self.bundle(),
            r.outcome_set() == self.outcome_set(),
            r.timestamps_set() == self.timestamps_set(),
            r.refs() == self.refs(),
            r.level() == self.level(),
            r.emits() == self.emits(),
            r.explanation_set() == self.explanation_set(),
            r.metadata_map() == self.metadata_map(),
    {
        AuditRecordBuilder { context, ..self }
    }

    /// Sets the log level.
    pub fn log_level(self, level: AuditLogLevel) -> (r: Self)
        ensures
            r.level() == level,
            r.same_except(&self),
            r.bundle() == self.bundle(),
            r.outcome_set() == self.outcome_set(),
            r.timestamps_set() == self.timestamps_set(),
            r.refs() == self.refs(),
            r.context_set() == self.context_set(),
            r.emits() == self.emits(),
            r.explanation_set() == self.explanation_set(),
            r.metadata_map() == self.metadata_map(),
    {
        AuditRecordBuilder { log_level: level, ..self }
    }

    /// Sets whether an event is emitted.
    pub fn emit_event(self, emit: bool) -> (r: Self)
        ensures
            r.emits() == emit,
            r.same_except(&self),
            r.bundle() == self.bundle(),
            r.outcome_set() == self.outcome_set(),
            r.timestamps_set() == self.timestamps_set(),
            r.refs() == self.refs(),
            r.context_set() == self.context_set(),
            r.level() == self.level(),
            r.explanation_set() == self.explanation_set(),
            r.metadata_map() == self.metadata_map(),
    {
        AuditRecordBuilder { emit_event: emit, ..self }
    }

    /// Sets the explanation.
    pub fn explanation(self, explanation: String) -> (r: Self)
        ensures
            r.explanation_set() == Some(explanation),
            r.same_except(&self),
            r.bundle() == self.bundle(),
            r.outcome_set() == self.outcome_set(),
            r.timestamps_set() == self.timestamps_set(),
            r.refs() == self.refs(),
            r.context_set() == self.context_set(),
            r.level() == self.level(),
            r.emits() == self.emits(),
            r.metadata_map() == self.metadata_map(),
    {
        AuditRecordBuilder { explanation: Some(explanation), ..self }
    }

    /// Sets a metadata key.
    pub fn add_metadata(self, key: String, value: String) -> (r: Self)
        ensures
            r.metadata_map() == self.metadata_map().insert(key@, value@),
            r.same_except(&self),
            r.bundle() == self.bundle(),
            r.outcome_set() == self.outcome_set(),
            r.timestamps_set() == self.timestamps_set(),
            r.refs() == self.refs(),
            r.context_set() == self.context_set(),
            r.level() == self.level(),
            r.emits() == self.emits(),
            r.explanation_set() == self.explanation_set(),
    {
        let mut b = self;
        upsert_pair(&mut b.metadata, key, value);
        b
    }

    /// The record, with its provenance hash computed; the timestamps default to now.
    /// Fails with `outcome is required` when no outcome was set.
    pub fn build(self) -> (r: Result<AuditRecord, String>)
        ensures
            self.outcome_set() is None <==> r is Err,
            r matches Err(e) ==> e@ == "outcome is required"@,
            r matches Ok(rec) ==> {
                &&& rec.seq == self.seq()
                &&& rec.rule_id == self.rule_id()
                &&& rec.rule_version == self.rule_version()
                &&& rec.bundle_id == self.bundle()
                &&& Some(rec.outcome) == self.outcome_set()
                &&& (self.timestamps_set() matches Some(t) ==> rec.timestamps == t)
                &&& rec.provenance_hash@ == rec.expected_provenance()
                &&& rec.payload_refs@ == self.refs()
                &&& rec.context == self.context_set()
                &&& rec.log_level == self.level()
                &&& rec.emit_event == self.emits()
                &&& rec.explanation == self.explanation_set()
                &&& pairs_map(rec.metadata@) == self.metadata_map()
            },
    {
        let outcome = match self.outcome {
            Some(o) => o,
            None => {
                return Err(String::from_str("outcome is required"));
            },
        };
        let timestamps = match self.timestamps {
            Some(t) => t,
            None => EvaluationTimestamps::now(),
        };
        let provenance_hash = AuditRecord::compute_provenance_hash(self.seq, self.rule_id.as_str(), self.rule_version, &outcome, &timestamps);
        Ok(AuditRecord {
            seq: self.seq,
            rule_id: self.rule_id,
            rule_version: self.rule_version,
            bundle_id: self.bundle_id,
            outcome,
            timestamps,
            provenance_hash,
            payload_refs: self.payload_refs,
            context: self.context,
            log_level: self.log_level,
            emit_event: self.emit_event,
            explanation: self.explanation,
            metadata: self.metadata,
        })
    }
}

/// The in-memory audit trail: hands out sequence numbers and keeps the most recent
/// records, at most `max_in_memory` of them.
pub struct AuditTrail {
    next_seq: SequenceNumber,
    records: Vec<AuditRecord>,
    max_in_memory: usize,
}

/// The last `max` records of a sequence (all of them when there are fewer).
pub open spec fn keep_last(s: Seq<AuditRecord>, max: nat) -> Seq<AuditRecord> {
    if s.len() > max {
        s.subrange(s.len() - max, s.len() as int)
    } else {
        s
    }
}

impl AuditTrail {
    /// The sequence number handed out next.
    pub closed spec fn next(&self) -> u64 {
        self.next_seq
    }

    /// The records kept, oldest first.
    pub closed spec fn kept(&self) -> Seq<AuditRecord> {
        self.records@
    }

    /// The most records kept.
    pub closed spec fn capacity(&self) -> nat {
        self.max_in_memory as nat
    }

    /// No more records are kept than the capacity.
    pub open spec fn wf(&self) -> bool {
        self.kept().len() <= self.capacity()
    }

    /// An empty trail keeping at most `max_in_memory` records, numbering from 0.
    pub fn new(max_in_memory: usize) -> (r: Self)
        ensures
            r.wf(),
            r.next() == 0,
            r.kept().len() == 0,
            r.capacity() == max_in_memory,
    {
        AuditTrail { next_seq: 0, records: Vec::new(), max_in_memory }
    }

    /// Hands out the next sequence number.
    pub fn next_seq(&mut self) -> (r: SequenceNumber)
        requires
            old(self).next() < u64::MAX,
        ensures
            r == old(self).next(),
            final(self).next() == old(self).next() + 1,
            final(self).kept() == old(self).kept(),
            final(self).capacity() == old(self).capacity(),
    {
        let seq = self.next_seq;
        self.next_seq = self.next_seq + 1;
        seq
    }

    /// Appends a record, then drops the oldest ones beyond the capacity.
    pub fn add_record(&mut self, record: AuditRecord)
        ensures
            final(self).kept() == keep_last(old(self).kept().push(record), old(self).capacity()),
            final(self).next() == old(self).next(),
            final(self).capacity() == old(self).capacity(),
            final(self).wf(),
    {
        self.records.push(record);
        if self.records.len() > self.max_in_memory {
            let excess = self.records.len() - self.max_in_memory;
            let kept = self.records.split_off(excess);
            self.records = kept;
        }
    }

    /// The records kept, oldest first.
    pub fn get_records(&self) -> (r: &[AuditRecord])
        ensures
            r@ == self.kept(),
    {
        self.records.as_slice()
    }

    /// The kept records of a rule, oldest first.
    pub fn get_records_by_rule(&self, rule_id: &str) -> (r: Vec<&AuditRecord>)
        ensures
            r@.map_values(|x: &AuditRecord| *x) == self.kept().filter(|x: AuditRecord| x.rule_id@ == rule_id@),
    {
        let mut r: Vec<&AuditRecord> = Vec::new();
        let n = self.records.len();
        let mut i: usize = 0;
        while i < n
            invariant
                n == self.records@.len(),
                i <= n,
                r@.map_values(|x: &AuditRecord| *x) == self.records@.take(i as int).filter(|x: AuditRecord| x.rule_id@ == rule_id@),
            decreases n - i,
        {
            let ghost before = r@;
            proof {
                assert(self.records@.take(i + 1).drop_last() =~= self.records@.take(i as int));
                reveal(Seq::filter);
            }
            if str_eq(self.records[i].rule_id.as_str(), rule_id) {
                r.push(&self.records[i]);
                proof {
                    assert(r@.map_values(|x: &AuditRecord| *x) =~= before.map_values(|x: &AuditRecord| *x).push(self.records@[i as int]));
                }
            }
            i = i + 1;
        }
        assert(self.records@.take(n as int) =~= self.records@);
        r
    }

    /// The kept records received between `start` and `end` (both included), oldest first.
    pub fn get_records_in_range(&self, start: u128, end: u128) -> (r: Vec<&AuditRecord>)
        ensures
            r@.map_values(|x: &AuditRecord| *x) == self.kept().filter(|x: AuditRecord| start <= x.timestamps.received_at <= end),
    {
        let mut r: Vec<&AuditRecord> = Vec::new();
        let n = self.records.len();
        let mut i: usize = 0;
        while i < n
            invariant
                n == self.records@.len(),
                i <= n,
                r@.map_values(|x: &AuditRecord| *x) == self.records@.take(i as int).filter(|x: AuditRecord| start <= x.timestamps.received_at <= end),
            decreases n - i,
        {
            let ghost before = r@;
            proof {
                assert(self.records@.take(i + 1).drop_last() =~= self.records@.take(i as int));
                reveal(Seq::filter);
            }
            let t = self.records[i].timestamps.received_at;
            if start <= t && t <= end {
                r.push(&self.records[i]);
                proof {
                    assert(r@.map_values(|x: &AuditRecord| *x) =~= before.map_values(|x: &AuditRecord| *x).push(self.records@[i as int]));
                }
            }
            i = i + 1;
        }
        assert(self.records@.take(n as int) =~= self.records@);
        r
    }

    /// Drops every record; numbering goes on.
    pub fn clear(&mut self)
        ensures
            final(self).kept().len() == 0,
            final(self).next() == old(self).next(),
            final(self).capacity() == old(self).capacity(),
            final(self).wf(),
    {
        self.records.clear();
    }
}

/// Whatever records are added, the trail never keeps more than its capacity, and what
/// it keeps after an addition is the newest part of what it kept plus the new record.
pub proof fn lemma_trail_keeps_newest(kept: Seq<AuditRecord>, record: AuditRecord, max: nat)
    requires
        kept.len() <= max,
    ensures
        keep_last(kept.push(record), max).len() <= max,
        max > 0 ==> keep_last(kept.push(record), max).last() == record,
        max > 0 && kept.len() < max ==> keep_last(kept.push(record), max) == kept.push(record),
{
}

proof fn lemma_middle_differs(a: Seq<u8>, x: Seq<u8>, y: Seq<u8>, b: Seq<u8>)
    requires
        x != y,
    ensures
        a + x + b != a + y + b,
{
    if x.len() == y.len() {
        assert(!(x =~= y));
        let i = choose|i: int| 0 <= i < x.len() && x[i] != y[i];
        assert((a + x + b)[a.len() + i] == x[i]);
        assert((a + y + b)[a.len() + i] == y[i]);
    } else {
        assert((a + x + b).len() != (a + y + b).len());
    }
}

/// The receipt time a provenance hash covers, in whole milliseconds.
pub open spec fn receipt_millis(t: EvaluationTimestamps) -> u64 {
    (t.received_at / 1_000_000) as u64
}

/// Exactly one of the fields a provenance hash covers differs between two decisions.
pub open spec fn one_field_changed(
    seq: u64,
    rule_id: Seq<char>,
    rule_version: u64,
    outcome: DecisionOutcome,
    timestamps: EvaluationTimestamps,
    seq2: u64,
    rule_id2: Seq<char>,
    rule_version2: u64,
    outcome2: DecisionOutcome,
    timestamps2: EvaluationTimestamps,
) -> bool {
    let same_seq = seq == seq2;
    let same_id = rule_id == rule_id2;
    let same_version = rule_version == rule_version2;
    let same_summary = outcome_summary(outcome) == outcome_summary(outcome2);
    let same_time = receipt_millis(timestamps) == receipt_millis(timestamps2);
    ||| !same_seq && same_id && same_version && same_summary && same_time
    ||| same_seq && !same_id && same_version && same_summary && same_time
    ||| same_seq && same_id && !same_version && same_summary && same_time
    ||| same_seq && same_id && same_version && !same_summary && same_time
    ||| same_seq && same_id && same_version && same_summary && !same_time
}

/// Changing one of the fields a provenance hash covers changes the bytes hashed: the
/// sequence number, the rule id, the version, the outcome's summary or the receipt
/// millisecond, the others kept.
pub proof fn lemma_provenance_field_change(
    seq: u64,
    rule_id: Seq<char>,
    rule_version: u64,
    outcome: DecisionOutcome,
    timestamps: EvaluationTimestamps,
    seq2: u64,
    rule_id2: Seq<char>,
    rule_version2: u64,
    outcome2: DecisionOutcome,
    timestamps2: EvaluationTimestamps,
)
    requires
        one_field_changed(seq, rule_id, rule_version, outcome, timestamps, seq2, rule_id2, rule_version2, outcome2, timestamps2),
    ensures
        provenance_bytes(seq, rule_id, rule_version, outcome, timestamps) != provenance_bytes(seq2, rule_id2, rule_version2, outcome2, timestamps2),
{
    lemma_auto_spec_u64_to_from_le_bytes();
    let l1 = spec_u64_to_le_bytes(seq);
    let l2 = spec_u64_to_le_bytes(seq2);
    let u1 = encode_utf8(rule_id);
    let u2 = encode_utf8(rule_id2);
    let v1 = spec_u64_to_le_bytes(rule_version);
    let v2 = spec_u64_to_le_bytes(rule_version2);
    let s1 = encode_utf8(outcome_summary(outcome));
    let s2 = encode_utf8(outcome_summary(outcome2));
    let m1 = spec_u64_to_le_bytes(receipt_millis(timestamps));
    let m2 = spec_u64_to_le_bytes(receipt_millis(timestamps2));
    let b1 = provenance_bytes(seq, rule_id, rule_version, outcome, timestamps);
    let b2 = provenance_bytes(seq2, rule_id2, rule_version2, outcome2, timestamps2);
    encode_utf8_decode_utf8(rule_id);
    encode_utf8_decode_utf8(rule_id2);
    encode_utf8_decode_utf8(outcome_summary(outcome));
    encode_utf8_decode_utf8(outcome_summary(outcome2));
    let e = Seq::<u8>::empty();
    if seq != seq2 {
        assert(l1 != l2);
        assert(b1 =~= e + l1 + (u1 + v1 + s1 + m1));
        assert(b2 =~= e + l2 + (u1 + v1 + s1 + m1));
        lemma_middle_differs(e, l1, l2, u1 + v1 + s1 + m1);
    } else if rule_id != rule_id2 {
        assert(u1 != u2);
        assert(b1 =~= l1 + u1 + (v1 + s1 + m1));
        assert(b2 =~= l1 + u2 + (v1 + s1 + m1));
        lemma_middle_differs(l1, u1, u2, v1 + s1 + m1);
    } else if rule_version != rule_version2 {
        assert(v1 != v2);
        assert(b1 =~= (l1 + u1) + v1 + (s1 + m1));
        assert(b2 =~= (l1 + u1) + v2 + (s1 + m1));
        lemma_middle_differs(l1 + u1, v1, v2, s1 + m1);
    } else if outcome_summary(outcome) != outcome_summary(outcome2) {
        assert(s1 != s2);
        assert(b1 =~= (l1 + u1 + v1) + s1 + m1);
        assert(b2 =~= (l1 + u1 + v1) + s2 + m1);
        lemma_middle_differs(l1 + u1 + v1, s1, s2, m1);
    } else {
        assert(m1 != m2);
        assert(b1 =~= (l1 + u1 + v1 + s1) + m1 + e);
        assert(b2 =~= (l1 + u1 + v1 + s1) + m2 + e);
        lemma_middle_differs(l1 + u1 + v1 + s1, m1, m2, e);
    }
}

/// Levels rank by verbosity, Critical < High < Medium < Low < Trace: a record of a
/// level is logged at its own level and at every more verbose one, and not at a less
/// verbose one.
pub proof fn lemma_levels_by_verbosity(record: AuditLogLevel, configured: AuditLogLevel)
    ensures
        level_rank(AuditLogLevel::Critical) < level_rank(AuditLogLevel::High),
        level_rank(AuditLogLevel::High) < level_rank(AuditLogLevel::Medium),
        level_rank(AuditLogLevel::Medium) < level_rank(AuditLogLevel::Low),
        level_rank(AuditLogLevel::Low) < level_rank(AuditLogLevel::Trace),
        level_rank(record) == level_rank(configured) <==> record == configured,
        level_rank(AuditLogLevel::Critical) <= level_rank(configured),
        level_rank(record) <= level_rank(AuditLogLevel::Trace),
{
}

} // verus!

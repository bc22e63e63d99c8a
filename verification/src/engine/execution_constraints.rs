//! Statistics of a constrained execution, rule kinds, and the retry policy's delays.
use vstd::prelude::*;
use vstd::arithmetic::power2::pow2;

verus! {

/// Statistics of one execution.
#[derive(Debug, Clone, Copy, PartialEq, Eq, Structural)]
pub struct ExecutionStats {
    /// Milliseconds elapsed
    pub elapsed_ms: u64,
    /// Memory used in bytes
    pub memory_used_bytes: u64,
    /// CPU time in microseconds
    pub cpu_time_us: u64,
    /// The time limit was passed
    pub timeout_occurred: bool,
    /// Constraint violations recorded
    pub violation_count: usize,
}

/// The kind of rule, which selects its constraints.
#[derive(Debug, Clone, Copy, PartialEq, Eq, Structural)]
pub enum RuleType {
    /// Fast-path rule with strict latency
    Fast,
    /// Semantic rule with relaxed limits
    Semantic,
    /// Sandboxed hook
    WasmHook,
    /// Logging and metrics
    Observational,
}

/// How often and how patiently a failing operation is retried.
#[derive(Debug, Clone, Copy, PartialEq, Eq, Structural)]
pub struct RetryPolicy {
    max_attempts: u32,
    backoff_ms: u64,
    exponential_backoff: bool,
}

/// The wait after failed attempt `attempt` (counting from 0): the base delay, doubled
/// once per earlier attempt when the backoff is exponential.
pub open spec fn backoff_delay(backoff_ms: u64, exponential: bool, attempt: u32) -> int {
    if exponential {
        backoff_ms * pow2(attempt as nat)
    } else {
        backoff_ms as int
    }
}

impl RetryPolicy {
    /// The most attempts made.
    pub closed spec fn attempts(&self) -> u32 {
        self.max_attempts
    }

    /// The base delay in milliseconds.
    pub closed spec fn backoff(&self) -> u64 {
        self.backoff_ms
    }

    /// Whether the delay doubles after each attempt.
    pub closed spec fn exponential(&self) -> bool {
        self.exponential_backoff
    }

    /// At most `max_attempts` attempts, `backoff_ms` apart.
    pub fn new(max_attempts: u32, backoff_ms: u64) -> (r: Self)
        ensures
            r.attempts() == max_attempts,
            r.backoff() == backoff_ms,
            !r.exponential(),
    {
        RetryPolicy { max_attempts, backoff_ms, exponential_backoff: false }
    }

    /// The same policy with the delay doubling after each attempt.
    pub fn with_exponential_backoff(self) -> (r: Self)
        ensures
            r.attempts() == self.attempts(),
            r.backoff() == self.backoff(),
            r.exponential(),
    {
        RetryPolicy { exponential_backoff: true, ..self }
    }

    /// The most attempts made.
    pub fn max_attempts(&self) -> (r: u32)
        ensures
            r == self.attempts(),
    {
        self.max_attempts
    }

    /// The base delay in milliseconds.
    pub fn backoff_ms(&self) -> (r: u64)
        ensures
            r == self.backoff(),
    {
        self.backoff_ms
    }

    /// Whether the delay doubles after each attempt.
    pub fn is_exponential(&self) -> (r: bool)
        ensures
            r == self.exponential(),
    {
        self.exponential_backoff
    }

    /// What follows a failure of attempt `attempt`: `None` when it was the last one,
    /// else the milliseconds to wait before the next. The delay must fit in 64 bits.
    pub fn delay_after_failure(&self, attempt: u32) -> (r: Option<u64>)
        requires
            attempt < self.attempts(),
            backoff_delay(self.backoff(), self.exponential(), attempt) <= u64::MAX,
        ensures
            match r {
                None => attempt + 1 == self.attempts(),
                Some(d) => attempt + 1 < self.attempts() && d == backoff_delay(self.backoff(), self.exponential(), attempt),
            },
    {
        if attempt + 1 >= self.max_attempts {
            return None;
        }
        if !self.exponential_backoff {
            return Some(self.backoff_ms);
        }
        let mut d: u64 = self.backoff_ms;
        let mut k: u32 = 0;
        proof {
            vstd::arithmetic::power2::lemma2_to64();
        }
        while k < attempt
            invariant
                k <= attempt,
                self.exponential_backoff,
                self.backoff_ms * pow2(attempt as nat) <= u64::MAX,
                d == self.backoff_ms * pow2(k as nat),
            decreases attempt - k,
        {
            proof {
                let k1 = (k + 1) as nat;
                vstd::arithmetic::power2::lemma_pow2_unfold(k1);
                assert(pow2(k1) == 2 * pow2(k as nat));
                if k1 < attempt {
                    vstd::arithmetic::power2::lemma_pow2_strictly_increases(k1, attempt as nat);
                }
                assert(pow2(k1) <= pow2(attempt as nat));
                if self.backoff_ms > 0 {
                    vstd::arithmetic::mul::lemma_mul_left_inequality(self.backoff_ms as int, pow2(k1) as int, pow2(attempt as nat) as int);
                } else {
                    vstd::arithmetic::mul::lemma_mul_basics(pow2(k1) as int);
                }
                assert(self.backoff_ms * pow2(k1) == 2 * (self.backoff_ms * pow2(k as nat))) by (nonlinear_arith)
                    requires
                        pow2(k1) == 2 * pow2(k as nat);
            }
            d = d * 2;
            k = k + 1;
        }
        Some(d)
    }
}

/// The first configuration error of a set of execution constraints: a zero time limit,
/// CPU shares above 100, a sampling rate outside [0, 1], or more than 10 retries.
pub open spec fn config_error(
    max_exec_ms: u64,
    cpu_shares: Option<u32>,
    sampling_rate_in_range: bool,
    max_retries: Option<u32>,
) -> Option<Seq<char>> {
    if max_exec_ms == 0 {
        Some("max_exec_ms must be greater than 0"@)
    } else if cpu_shares matches Some(c) && c > 100 {
        Some("cpu_shares must be between 0 and 100"@)
    } else if !sampling_rate_in_range {
        Some("sampling_rate must be between 0.0 and 1.0"@)
    } else if max_retries matches Some(m) && m > 10 {
        Some("max_retries should not exceed 10"@)
    } else {
        None
    }
}

/// Checks a constraint configuration; whether the sampling rate lies in [0, 1] is
/// given, since the rate is a floating-point number.
pub fn constraint_config_error(
    max_exec_ms: u64,
    cpu_shares: Option<u32>,
    sampling_rate_in_range: bool,
    max_retries: Option<u32>,
) -> (r: Option<String>)
    ensures
        match r {
            Some(e) => config_error(max_exec_ms, cpu_shares, sampling_rate_in_range, max_retries) == Some(e@),
            None => config_error(max_exec_ms, cpu_shares, sampling_rate_in_range, max_retries) is None,
        },
{
    if max_exec_ms == 0 {
        return Some(String::from_str("max_exec_ms must be greater than 0"));
    }
    match cpu_shares {
        Some(c) => {
            if c > 100 {
                return Some(String::from_str("cpu_shares must be between 0 and 100"));
            }
        },
        None => {},
    }
    if !sampling_rate_in_range {
        return Some(String::from_str("sampling_rate must be between 0.0 and 1.0"));
    }
    match max_retries {
        Some(m) => {
            if m > 10 {
                return Some(String::from_str("max_retries should not exceed 10"));
            }
        },
        None => {},
    }
    None
}

/// A limit an execution passed.
#[derive(Debug, Clone, Copy, PartialEq, Eq, Structural)]
pub enum BudgetViolation {
    /// The time limit was reached
    TimeoutExceeded { allowed_ms: u64, actual_ms: u64 },
    /// More memory was used than allowed
    MemoryExceeded { limit_bytes: u64, actual_bytes: u64 },
}

/// The limits passed, in the order they are checked: time (reached when the elapsed
/// time is at least the limit), then memory (passed when the use exceeds the limit).
pub open spec fn budget_violations_spec(
    elapsed_ms: u64,
    max_exec_ms: u64,
    memory_used: u64,
    memory_limit: Option<u64>,
) -> Seq<BudgetViolation> {
    let time: Seq<BudgetViolation> = if elapsed_ms >= max_exec_ms {
        seq![BudgetViolation::TimeoutExceeded { allowed_ms: max_exec_ms, actual_ms: elapsed_ms }]
    } else {
        Seq::empty()
    };
    match memory_limit {
        Some(limit) => if memory_used > limit {
            time.push(BudgetViolation::MemoryExceeded { limit_bytes: limit, actual_bytes: memory_used })
        } else {
            time
        },
        None => time,
    }
}

/// The limits an execution passed so far.
pub fn budget_violations(elapsed_ms: u64, max_exec_ms: u64, memory_used: u64, memory_limit: Option<u64>) -> (r: Vec<BudgetViolation>)
    ensures
        r@ == budget_violations_spec(elapsed_ms, max_exec_ms, memory_used, memory_limit),
{
    let mut v: Vec<BudgetViolation> = Vec::new();
    if elapsed_ms >= max_exec_ms {
        v.push(BudgetViolation::TimeoutExceeded { allowed_ms: max_exec_ms, actual_ms: elapsed_ms });
    }
    match memory_limit {
        Some(limit) => {
            if memory_used > limit {
                v.push(BudgetViolation::MemoryExceeded { limit_bytes: limit, actual_bytes: memory_used });
            }
        },
        None => {},
    }
    proof {
        assert(v@ =~= budget_violations_spec(elapsed_ms, max_exec_ms, memory_used, memory_limit));
    }
    v
}

/// The milliseconds left of a time limit; negative once it is passed.
pub fn remaining_ms(max_exec_ms: u64, elapsed_ms: u64) -> (r: i64)
    requires
        max_exec_ms <= i64::MAX,
        elapsed_ms <= i64::MAX,
    ensures
        r == max_exec_ms - elapsed_ms,
{
    max_exec_ms as i64 - elapsed_ms as i64
}

/// The report of a reached time limit.
pub open spec fn timeout_report(elapsed_ms: u64, max_exec_ms: u64) -> BudgetViolation {
    BudgetViolation::TimeoutExceeded { allowed_ms: max_exec_ms, actual_ms: elapsed_ms }
}

/// The report of a passed memory limit.
pub open spec fn memory_report(limit: u64, memory_used: u64) -> BudgetViolation {
    BudgetViolation::MemoryExceeded { limit_bytes: limit, actual_bytes: memory_used }
}

/// Memory use above a limit, when there is one.
pub open spec fn memory_over(memory_used: u64, memory_limit: Option<u64>) -> bool {
    match memory_limit {
        Some(l) => memory_used > l,
        None => false,
    }
}

/// Some report of the list is of a passed memory limit.
pub open spec fn reports_memory(v: Seq<BudgetViolation>) -> bool {
    exists|i: int| 0 <= i < v.len() && (#[trigger] v[i]) is MemoryExceeded
}

/// Some report of the list is of a reached time limit.
pub open spec fn reports_timeout(v: Seq<BudgetViolation>) -> bool {
    exists|i: int| 0 <= i < v.len() && (#[trigger] v[i]) is TimeoutExceeded
}

/// Each limit is judged on its own: the time limit is reported exactly when the
/// elapsed time reaches it, whatever the memory, and first; the memory limit exactly
/// when the use exceeds it, whatever the time; nothing else is reported, and nothing
/// twice.
pub proof fn lemma_budget_violations(
    elapsed_ms: u64,
    max_exec_ms: u64,
    memory_used: u64,
    memory_limit: Option<u64>,
    other_elapsed_ms: u64,
    other_memory_used: u64,
)
    ensures
        budget_violations_spec(elapsed_ms, max_exec_ms, memory_used, memory_limit).contains(timeout_report(elapsed_ms, max_exec_ms))
            <==> elapsed_ms >= max_exec_ms,
        budget_violations_spec(elapsed_ms, max_exec_ms, memory_used, memory_limit).len()
            == (if elapsed_ms >= max_exec_ms { 1int } else { 0int }) + (if memory_over(memory_used, memory_limit) { 1int } else { 0int }),
        elapsed_ms >= max_exec_ms ==> budget_violations_spec(elapsed_ms, max_exec_ms, memory_used, memory_limit)[0] == timeout_report(elapsed_ms, max_exec_ms),
        forall|l: u64|
            memory_limit == Some(l) ==> (budget_violations_spec(elapsed_ms, max_exec_ms, memory_used, memory_limit).contains(#[trigger] memory_report(l, memory_used))
                <==> memory_used > l),
        forall|i: int|
            0 <= i < budget_violations_spec(elapsed_ms, max_exec_ms, memory_used, memory_limit).len() ==> (
            #[trigger] budget_violations_spec(elapsed_ms, max_exec_ms, memory_used, memory_limit)[i] == timeout_report(elapsed_ms, max_exec_ms)
                || (memory_limit is Some && budget_violations_spec(elapsed_ms, max_exec_ms, memory_used, memory_limit)[i] == memory_report(memory_limit->0, memory_used))),
        reports_memory(budget_violations_spec(elapsed_ms, max_exec_ms, memory_used, memory_limit))
            == reports_memory(budget_violations_spec(other_elapsed_ms, max_exec_ms, memory_used, memory_limit)),
        reports_memory(budget_violations_spec(elapsed_ms, max_exec_ms, memory_used, memory_limit)) == memory_over(memory_used, memory_limit),
        reports_timeout(budget_violations_spec(elapsed_ms, max_exec_ms, memory_used, memory_limit))
            == reports_timeout(budget_violations_spec(elapsed_ms, max_exec_ms, other_memory_used, memory_limit)),
{
    let t = BudgetViolation::TimeoutExceeded { allowed_ms: max_exec_ms, actual_ms: elapsed_ms };
    let v = budget_violations_spec(elapsed_ms, max_exec_ms, memory_used, memory_limit);
    if elapsed_ms >= max_exec_ms {
        assert(v[0] == t);
    }
    match memory_limit {
        Some(l) => {
            if memory_used > l {
                assert(v[v.len() - 1] == BudgetViolation::MemoryExceeded { limit_bytes: l, actual_bytes: memory_used });
            }
        },
        None => {},
    }
    let v2 = budget_violations_spec(other_elapsed_ms, max_exec_ms, memory_used, memory_limit);
    if v2.len() > 0 {
        assert(v2[v2.len() - 1] == v2.last());
    }
    if v.len() > 0 {
        assert(v[v.len() - 1] == v.last());
    }
    let v3 = budget_violations_spec(elapsed_ms, max_exec_ms, other_memory_used, memory_limit);
    if v3.len() > 0 {
        assert(v3[0] == v3.first());
    }
    if v.len() > 0 {
        assert(v[0] == v.first());
    }
}

/// Retry delays: the first wait is the base delay either way; a fixed backoff waits the
/// same after every attempt, and an exponential one waits twice as long after each
/// attempt as after the one before.
pub proof fn lemma_backoff_delays(backoff_ms: u64, attempt: u32)
    requires
        attempt < u32::MAX,
    ensures
        backoff_delay(backoff_ms, true, 0) == backoff_ms,
        backoff_delay(backoff_ms, false, attempt) == backoff_ms,
        backoff_delay(backoff_ms, true, (attempt + 1) as u32) == 2 * backoff_delay(backoff_ms, true, attempt),
{
    vstd::arithmetic::power2::lemma_pow2_unfold((attempt + 1) as nat);
    vstd::arithmetic::power2::lemma2_to64();
    let p = pow2(attempt as nat);
    assert(backoff_ms * (2 * p) == 2 * (backoff_ms * p)) by (nonlinear_arith);
}

/// A constraint configuration is accepted exactly when its time limit is positive, its
/// CPU shares (if any) are at most 100, its sampling rate lies in [0, 1] and its retries
/// (if any) are at most 10.
pub proof fn lemma_config_accepted(max_exec_ms: u64, cpu_shares: Option<u32>, sampling_rate_in_range: bool, max_retries: Option<u32>)
    ensures
        config_error(max_exec_ms, cpu_shares, sampling_rate_in_range, max_retries) is None <==> {
            &&& max_exec_ms > 0
            &&& (cpu_shares is None || cpu_shares->0 <= 100)
            &&& sampling_rate_in_range
            &&& (max_retries is None || max_retries->0 <= 10)
        },
{
}

} // verus!

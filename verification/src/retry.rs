//! Retrying with exponential backoff: how many attempts, how long to wait, and what is
//! reported when every attempt failed.
use vstd::prelude::*;
use vstd::string::*;
use crate::text::{decimal, u64_text};

verus! {

/// How a failing operation is retried: `attempts` tries in all, waiting `base_delay_ms`
/// after the first failure and twice as long after each further one.
#[derive(Debug)]
pub struct RetryPlan {
    pub attempts: u32,
    pub base_delay_ms: u64,
}

pub open spec fn clamp(value: u32, low: u32, high: u32) -> u32 {
    if value < low {
        low
    } else if value > high {
        high
    } else {
        value
    }
}

pub open spec fn pow2(n: nat) -> nat
    decreases n,
{
    if n == 0 {
        1
    } else {
        2 * pow2((n - 1) as nat)
    }
}

impl RetryPlan {
    pub open spec fn wf(self) -> bool {
        &&& 1 <= self.attempts <= 5
        &&& self.base_delay_ms <= 1000
    }
}

/// Calls into the Grafana MCP server: between one and five attempts as configured, backing
/// off from 300 ms.
pub fn mcp_retry_plan(configured: u32) -> (p: RetryPlan)
    ensures
        p.wf(),
        p.attempts == clamp(configured, 1, 5),
        p.base_delay_ms == 300,
{
    RetryPlan { attempts: clamp_u32(configured, 1, 5), base_delay_ms: 300 }
}

/// Calls to the AI provider: between one and three attempts as configured, backing off
/// from 500 ms.
pub fn ai_retry_plan(configured: u32) -> (p: RetryPlan)
    ensures
        p.wf(),
        p.attempts == clamp(configured, 1, 3),
        p.base_delay_ms == 500,
{
    RetryPlan { attempts: clamp_u32(configured, 1, 3), base_delay_ms: 500 }
}

pub fn clamp_u32(value: u32, low: u32, high: u32) -> (r: u32)
    requires
        low <= high,
    ensures
        r == clamp(value, low, high),
{
    if value < low {
        low
    } else if value > high {
        high
    } else {
        value
    }
}

/// The wait after failed attempt `attempt` (counted from one).
pub open spec fn backoff_ms(plan: RetryPlan, attempt: nat) -> nat {
    (plan.base_delay_ms as nat) * pow2((attempt - 1) as nat)
}

/// What a failed attempt is reported as: `第 {attempt}/{attempts} 次：{error}`.
pub open spec fn failure_text(attempt: u32, attempts: u32, error: Seq<char>) -> Seq<char> {
    "第 "@ + decimal(attempt as nat) + "/"@ + decimal(attempts as nat) + " 次："@ + error
}

/// What to do after a failed attempt.
#[derive(Debug)]
pub enum RetryStep {
    /// Wait this long, then try again.
    Wait(u64),
    /// Every attempt failed; report this.
    GiveUp(String),
}

pub fn failure_message(attempt: u32, attempts: u32, error: &str) -> (r: String)
    ensures
        r@ == failure_text(attempt, attempts, error@),
{
    String::from_str("第 ").concat(u64_text(attempt as u64).as_str()).concat("/").concat(
        u64_text(attempts as u64).as_str(),
    ).concat(" 次：").concat(error)
}

/// The step after attempt `attempt` (counted from one) failed with `error`: wait and try
/// again while attempts remain, otherwise give up with the last failure.
pub fn after_failure(plan: &RetryPlan, attempt: u32, error: &str) -> (r: RetryStep)
    requires
        plan.wf(),
        1 <= attempt <= plan.attempts,
    ensures
        attempt < plan.attempts ==> r == RetryStep::Wait(backoff_ms(*plan, attempt as nat) as u64),
        attempt == plan.attempts ==> (r matches RetryStep::GiveUp(m) && m@ == failure_text(
            attempt,
            plan.attempts,
            error@,
        )),
{
    if attempt < plan.attempts {
        let mut delay: u64 = plan.base_delay_ms;
        let mut k: u32 = 1;
        assert(pow2(0) == 1);
        assert(delay == plan.base_delay_ms * pow2((k - 1) as nat)) by (nonlinear_arith)
            requires
                k == 1,
                delay == plan.base_delay_ms,
                pow2(0) == 1,
        ;
        while k < attempt
            invariant
                1 <= k <= attempt,
                attempt <= 5,
                plan.wf(),
                delay == plan.base_delay_ms * pow2((k - 1) as nat),
                delay <= 1000 * pow2((k - 1) as nat),
                pow2((k - 1) as nat) <= 16,
            decreases attempt - k,
        {
            assert(pow2(k as nat) == 2 * pow2((k - 1) as nat));
            assert(k <= 4);
            assert(pow2((k - 1) as nat) <= 8) by {
                reveal_with_fuel(pow2, 5);
            }
            delay = delay * 2;
            k = k + 1;
            assert(delay == plan.base_delay_ms * pow2((k - 1) as nat)) by (nonlinear_arith)
                requires
                    delay == 2 * (plan.base_delay_ms * pow2((k - 2) as nat)),
                    pow2((k - 1) as nat) == 2 * pow2((k - 2) as nat),
            ;
        }
        RetryStep::Wait(delay)
    } else {
        RetryStep::GiveUp(failure_message(attempt, plan.attempts, error))
    }
}

/// The waits double: the wait after attempt `n + 1` is twice the wait after attempt `n`,
/// and the first is the plan's base delay.
pub proof fn law_backoff_doubles(plan: RetryPlan, n: nat)
    requires
        n >= 1,
    ensures
        backoff_ms(plan, n + 1) == 2 * backoff_ms(plan, n),
        backoff_ms(plan, 1) == plan.base_delay_ms,
{
    assert(pow2(n) == 2 * pow2((n - 1) as nat));
    assert(pow2(0) == 1);
    assert(backoff_ms(plan, 1) == plan.base_delay_ms) by (nonlinear_arith)
        requires
            backoff_ms(plan, 1) == (plan.base_delay_ms as nat) * pow2(0),
            pow2(0) == 1,
    ;
    assert(plan.base_delay_ms * (2 * pow2((n - 1) as nat)) == 2 * (plan.base_delay_ms * pow2(
        (n - 1) as nat,
    ))) by (nonlinear_arith);
}

/// Every plan makes at least one attempt and never more than its bound, whatever was
/// configured.
pub proof fn law_attempts_are_bounded(configured: u32)
    ensures
        1 <= clamp(configured, 1, 5) <= 5,
        1 <= clamp(configured, 1, 3) <= 3,
        1 <= configured <= 5 ==> clamp(configured, 1, 5) == configured,
{
}

} // verus!

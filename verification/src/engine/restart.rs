//! The restart policy: whether a crashed process is restarted, and after
//! what delay.

use crate::error::{SentinelError, SentinelErrorView};
use crate::models::config::ProcessConfig;
use vstd::prelude::*;

verus! {

/// Two to the power of `n`.
pub open spec fn two_to(n: nat) -> nat
    decreases n,
{
    if n == 0 {
        1
    } else {
        2 * two_to((n - 1) as nat)
    }
}

/// The pause before restart number `restart_count + 1`: the base delay
/// doubled once for every restart made so far, and `u64::MAX` milliseconds
/// where that is more than a `u64` holds.
pub open spec fn backoff_delay(restart_delay: u64, restart_count: u32) -> u64 {
    if restart_delay * two_to(restart_count as nat) > u64::MAX {
        u64::MAX
    } else {
        (restart_delay * two_to(restart_count as nat)) as u64
    }
}

/// Whether the restart budget of a process has room for one more restart:
/// a limit of zero means that there is no limit.
pub open spec fn budget_left(restart_limit: u32, restart_count: u32) -> bool {
    restart_limit == 0 || restart_count < restart_limit
}

/// Powers of two are positive and grow with the exponent.
pub proof fn lemma_two_to_grows(a: nat, b: nat)
    requires
        a <= b,
    ensures
        1 <= two_to(a) <= two_to(b),
    decreases b,
{
    if b > 0 {
        if a < b {
            lemma_two_to_grows(a, (b - 1) as nat);
        } else {
            lemma_two_to_grows((a - 1) as nat, (b - 1) as nat);
        }
    }
}

/// A base delay of zero gives no wait, whatever the number of restarts.
pub proof fn lemma_zero_delay_never_waits(restart_count: u32)
    ensures
        backoff_delay(0, restart_count) == 0,
{
    assert(0 * two_to(restart_count as nat) == 0) by (nonlinear_arith);
}

/// The first restart waits for the base delay itself.
pub proof fn lemma_first_restart_waits_base_delay(restart_delay: u64)
    ensures
        backoff_delay(restart_delay, 0) == restart_delay,
{
    assert(two_to(0) == 1);
    assert(restart_delay * 1 == restart_delay);
}

/// Computes the pause before the next restart of a process that was
/// restarted `restart_count` times: `restart_delay * 2^restart_count`
/// milliseconds, saturating.
pub fn compute_backoff(restart_delay: u64, restart_count: u32) -> (delay_ms: u64)
    ensures
        delay_ms == backoff_delay(restart_delay, restart_count),
{
    if restart_delay == 0 {
        proof {
            lemma_zero_delay_never_waits(restart_count);
        }
        return 0;
    }
    let mut delay: u64 = restart_delay;
    let mut doubled: u32 = 0;
    proof {
        lemma_first_restart_waits_base_delay(restart_delay);
        assert(two_to(0) == 1);
    }
    while doubled < restart_count && delay <= u64::MAX / 2
        invariant
            doubled <= restart_count,
            restart_delay >= 1,
            delay == restart_delay * two_to(doubled as nat),
        decreases restart_count - doubled,
    {
        proof {
            let so_far = two_to(doubled as nat);
            assert(two_to((doubled + 1) as nat) == 2 * so_far);
            assert(restart_delay * (2 * so_far) == 2 * (restart_delay * so_far)) by (nonlinear_arith);
        }
        delay = delay * 2;
        doubled = doubled + 1;
    }
    if doubled < restart_count {
        proof {
            let so_far = two_to(doubled as nat);
            let all = two_to(restart_count as nat);
            lemma_two_to_grows((doubled + 1) as nat, restart_count as nat);
            assert(two_to((doubled + 1) as nat) == 2 * so_far);
            assert(restart_delay * all >= restart_delay * (2 * so_far)) by (nonlinear_arith)
                requires
                    all >= 2 * so_far,
                    restart_delay >= 1,
            ;
            assert(restart_delay * (2 * so_far) == 2 * (restart_delay * so_far)) by (nonlinear_arith);
        }
        u64::MAX
    } else {
        delay
    }
}

/// What the supervisor does about a process that was seen to have crashed.
#[derive(Debug, Clone, Copy, PartialEq, Eq, Structural)]
pub enum RestartDecision {
    /// The process is not restarted automatically.
    NoRestart,
    /// The process is restarted after a pause of `delay_ms` milliseconds;
    /// the restart is number `attempt` of this process.
    Restart { delay_ms: u64, attempt: u32 },
    /// The process has used up its restart budget of `limit` restarts and
    /// stays crashed.
    LimitExceeded { limit: u32 },
}

/// The decision that the policy of a configuration gives for a process that
/// crashed after `restart_count` restarts.
pub open spec fn decision_for(
    auto_restart: bool,
    restart_limit: u32,
    restart_delay: u64,
    restart_count: u32,
) -> RestartDecision {
    if !auto_restart {
        RestartDecision::NoRestart
    } else if budget_left(restart_limit, restart_count) {
        RestartDecision::Restart {
            delay_ms: backoff_delay(restart_delay, restart_count),
            attempt: next_count(restart_count),
        }
    } else {
        RestartDecision::LimitExceeded { limit: restart_limit }
    }
}

/// The restart counter after one more restart. It stops at `u32::MAX`, which
/// only a process without a restart limit can reach.
pub open spec fn next_count(restart_count: u32) -> u32 {
    if restart_count == u32::MAX {
        u32::MAX
    } else {
        (restart_count + 1) as u32
    }
}

/// Decides whether a crashed process is restarted.
pub fn decide_restart(config: &ProcessConfig, restart_count: u32) -> (decision: RestartDecision)
    ensures
        decision == decision_for(
            config.auto_restart,
            config.restart_limit,
            config.restart_delay,
            restart_count,
        ),
{
    if !config.auto_restart {
        RestartDecision::NoRestart
    } else if config.restart_limit == 0 || restart_count < config.restart_limit {
        let attempt: u32 = if restart_count == u32::MAX {
            u32::MAX
        } else {
            restart_count + 1
        };
        RestartDecision::Restart {
            delay_ms: compute_backoff(config.restart_delay, restart_count),
            attempt,
        }
    } else {
        RestartDecision::LimitExceeded { limit: config.restart_limit }
    }
}

/// The error that reports a used-up restart budget.
pub fn restart_limit_exceeded(name: &str, limit: u32) -> (e: SentinelError)
    ensures
        e@ == (SentinelErrorView::RestartLimitExceeded { name: name@, limit }),
{
    SentinelError::RestartLimitExceeded { name: name.to_owned(), limit }
}

/// A process without a restart limit never uses up its budget.
pub proof fn lemma_no_limit_never_exceeded(auto_restart: bool, restart_delay: u64, restart_count: u32)
    ensures
        !(decision_for(auto_restart, 0, restart_delay, restart_count) is LimitExceeded),
        budget_left(0, restart_count),
{
}

/// A restart that the policy grants keeps the counter within the limit.
pub proof fn lemma_granted_restart_within_limit(restart_limit: u32, restart_count: u32)
    requires
        restart_limit > 0,
        budget_left(restart_limit, restart_count),
    ensures
        next_count(restart_count) <= restart_limit,
        next_count(restart_count) == restart_count + 1,
{
}

} // verus!

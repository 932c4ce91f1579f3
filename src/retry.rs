use vstd::prelude::*;

verus! {

/// How often a failing operation is tried and how long to wait between tries.
#[derive(Debug, Clone, Copy, PartialEq, Eq, Structural)]
pub struct RetryPolicy {
    /// Tries in all, the first one included.
    pub max_attempts: u32,
    /// Wait after the first failure, in milliseconds.
    pub initial_delay_ms: u64,
    /// Factor by which each further wait grows.
    pub multiplier: u64,
    /// Longest wait, in milliseconds; the first wait is not held to it.
    pub max_delay_ms: u64,
}

/// What to do after a try has failed.
#[derive(Debug, Clone, Copy, PartialEq, Eq, Structural)]
pub enum RetryDecision {
    /// Wait this long, then make try number `attempt`.
    RetryAfter { attempt: u32, delay_ms: u64 },
    /// The tries are used up: report the last failure.
    GiveUp,
}

/// The policy of export jobs: three tries, waiting one second and then two.
pub open spec fn export_policy() -> RetryPolicy {
    RetryPolicy { max_attempts: 3, initial_delay_ms: 1000, multiplier: 2, max_delay_ms: 30_000 }
}

/// The wait after failed try number `attempt` (from 1): the initial delay, then each
/// wait `multiplier` times the one before, at most `max_delay_ms`.
pub open spec fn backoff(p: RetryPolicy, attempt: nat) -> nat
    decreases attempt,
{
    if attempt <= 1 {
        p.initial_delay_ms as nat
    } else {
        let grown: nat = backoff(p, (attempt - 1) as nat) * (p.multiplier as nat);
        if grown > p.max_delay_ms {
            p.max_delay_ms as nat
        } else {
            grown
        }
    }
}

pub proof fn lemma_backoff_bounded(p: RetryPolicy, attempt: nat)
    ensures
        backoff(p, attempt) <= if p.initial_delay_ms > p.max_delay_ms {
            p.initial_delay_ms as nat
        } else {
            p.max_delay_ms as nat
        },
    decreases attempt,
{
    if attempt > 1 {
        lemma_backoff_bounded(p, (attempt - 1) as nat);
    }
}

/// The decision after try number `attempt` has failed.
pub open spec fn decision_after_failure(p: RetryPolicy, attempt: u32) -> RetryDecision {
    if attempt < p.max_attempts {
        RetryDecision::RetryAfter {
            attempt: (attempt + 1) as u32,
            delay_ms: backoff(p, attempt as nat) as u64,
        }
    } else {
        RetryDecision::GiveUp
    }
}

/// Running tries whose outcomes (true: success) are `outcomes`, in order: the number of
/// the try that succeeded, or `None` when every permitted try failed.
pub open spec fn first_success(p: RetryPolicy, outcomes: Seq<bool>, attempt: nat) -> Option<nat>
    decreases outcomes.len(),
{
    if outcomes.len() == 0 || attempt > p.max_attempts {
        None
    } else if outcomes[0] {
        Some(attempt)
    } else {
        first_success(p, outcomes.drop_first(), attempt + 1)
    }
}

impl RetryPolicy {
    pub fn export() -> (r: RetryPolicy)
        ensures
            r == export_policy(),
    {
        RetryPolicy { max_attempts: 3, initial_delay_ms: 1000, multiplier: 2, max_delay_ms: 30_000 }
    }

    /// The wait after failed try number `attempt` (from 1), in milliseconds.
    pub fn delay_after(&self, attempt: u32) -> (r: u64)
        ensures
            r == backoff(*self, attempt as nat),
    {
        let mut delay: u64 = self.initial_delay_ms;
        let mut k: u32 = 1;
        while k < attempt
            invariant
                1 <= k,
                k <= attempt || (attempt <= 1 && k == 1),
                delay == backoff(*self, k as nat),
            decreases attempt - k,
        {
            proof {
                lemma_backoff_bounded(*self, k as nat);
            }
            delay = match delay.checked_mul(self.multiplier) {
                Some(grown) => if grown > self.max_delay_ms {
                    self.max_delay_ms
                } else {
                    grown
                },
                None => self.max_delay_ms,
            };
            k = k + 1;
        }
        proof {
            if attempt <= 1 {
                assert(backoff(*self, attempt as nat) == backoff(*self, 1));
            }
        }
        delay
    }

    /// What to do after try number `attempt` (from 1) has failed.
    pub fn after_failure(&self, attempt: u32) -> (r: RetryDecision)
        ensures
            r == decision_after_failure(*self, attempt),
    {
        if attempt < self.max_attempts {
            proof {
                lemma_backoff_bounded(*self, attempt as nat);
            }
            RetryDecision::RetryAfter { attempt: attempt + 1, delay_ms: self.delay_after(attempt) }
        } else {
            RetryDecision::GiveUp
        }
    }
}

} // verus!

verus! {

/// Retry budget: under the export policy a failed first or second try leads to the
/// next try after one and then two seconds, and a failed third try ends the tries.
pub proof fn export_retry_budget(attempt: u32)
    requires
        1 <= attempt,
    ensures
        attempt == 1 ==> decision_after_failure(export_policy(), attempt) == (RetryDecision::RetryAfter {
            attempt: 2,
            delay_ms: 1000,
        }),
        attempt == 2 ==> decision_after_failure(export_policy(), attempt) == (RetryDecision::RetryAfter {
            attempt: 3,
            delay_ms: 2000,
        }),
        attempt >= 3 ==> decision_after_failure(export_policy(), attempt) == RetryDecision::GiveUp,
{
    reveal_with_fuel(backoff, 3);
}

/// The tries stop at the first success, which counts only within the policy's number
/// of tries: the run succeeds on try `n` exactly when `n` is permitted, try `n`
/// succeeds and every try before it failed.
pub proof fn first_success_is_first_permitted(p: RetryPolicy, outcomes: Seq<bool>, start: nat, n: nat)
    requires
        start >= 1,
    ensures
        first_success(p, outcomes, start) == Some(n) <==> start <= n <= p.max_attempts && n - start
            < outcomes.len() && outcomes[n - start] && forall|i: int|
            0 <= i < n - start ==> !#[trigger] outcomes[i],
    decreases outcomes.len(),
{
    if outcomes.len() > 0 && start <= p.max_attempts && !outcomes[0] {
        first_success_is_first_permitted(p, outcomes.drop_first(), start + 1, n);
        if first_success(p, outcomes, start) == Some(n) {
            assert forall|i: int| 0 <= i < n - start implies !#[trigger] outcomes[i] by {
                if i > 0 {
                    assert(outcomes[i] == outcomes.drop_first()[i - 1]);
                }
            }
        }
        if start <= n <= p.max_attempts && n - start < outcomes.len() && outcomes[n - start]
            && forall|i: int| 0 <= i < n - start ==> !#[trigger] outcomes[i] {
            if n == start {
            } else {
                assert(outcomes.drop_first()[n - (start + 1)] == outcomes[n - start]);
                assert forall|i: int| 0 <= i < n - (start + 1) implies !#[trigger] outcomes.drop_first()[i] by {
                    assert(outcomes.drop_first()[i] == outcomes[i + 1]);
                }
            }
        }
    }
}

} // verus!

verus! {

/// The try on which a run ends with a success, following after each failure the
/// decision of the policy; `None` when it gives up or the outcomes run out.
pub open spec fn run_attempts(p: RetryPolicy, outcomes: Seq<bool>, attempt: u32) -> Option<nat>
    decreases outcomes.len(),
{
    if outcomes.len() == 0 {
        None
    } else if outcomes[0] {
        Some(attempt as nat)
    } else {
        match decision_after_failure(p, attempt) {
            RetryDecision::RetryAfter { attempt: next, .. } => run_attempts(p, outcomes.drop_first(), next),
            RetryDecision::GiveUp => None,
        }
    }
}

/// Retry budget: following the policy's decisions try by try ends on the first success
/// among the permitted tries, and on none when every permitted try fails.
pub proof fn decisions_stop_at_first_success(p: RetryPolicy, outcomes: Seq<bool>, attempt: u32)
    requires
        1 <= attempt <= p.max_attempts,
    ensures
        run_attempts(p, outcomes, attempt) == first_success(p, outcomes, attempt as nat),
    decreases outcomes.len(),
{
    if outcomes.len() > 0 && !outcomes[0] {
        if attempt < p.max_attempts {
            decisions_stop_at_first_success(p, outcomes.drop_first(), (attempt + 1) as u32);
        } else {
            let rest = outcomes.drop_first();
            assert(first_success(p, rest, (attempt + 1) as nat) is None);
        }
    }
}

} // verus!

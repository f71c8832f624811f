//! The policy capability and its two built-in strategies.

use std::ops::ControlFlow;
use std::time::Duration;
use vstd::prelude::*;

verus! {

/// Decides, after a failed attempt, whether to try again.
///
/// `ControlFlow::Break(())` ends the session; `ControlFlow::Continue(d)`
/// asks the caller to pause for `d` and then try once more. A policy holds no
/// session state: its answer is a function of its configuration and of
/// `attempts` alone. An implementation states that function as `decision`,
/// and `should_retry` computes it.
pub trait RetryPolicy: Send + Sync {
    /// The answer of this policy after `attempts` failed attempts.
    spec fn decision(&self, attempts: usize) -> ControlFlow<(), Duration>;

    /// Tells whether a new attempt should be made, `attempts` being the
    /// number of attempts that have failed so far.
    fn should_retry(&self, attempts: usize) -> (r: ControlFlow<(), Duration>)
        ensures
            r == self.decision(attempts),
    ;
}

/// The policy that never retries.
pub struct NoRetry;

/// A fixed number of retries, each after the same pause.
pub struct Fixed {
    pub attempts: usize,
    pub delay: Duration,
}

impl Fixed {
    /// A policy that allows `attempts` retries, each after `delay`.
    pub fn new(attempts: usize, delay: Duration) -> (r: Self)
        ensures
            r.attempts == attempts,
            r.delay == delay,
    {
        Self { attempts, delay }
    }
}

impl RetryPolicy for Fixed {
    open spec fn decision(&self, attempts: usize) -> ControlFlow<(), Duration> {
        if attempts <= self.attempts {
            ControlFlow::Continue(self.delay)
        } else {
            ControlFlow::Break(())
        }
    }

    fn should_retry(&self, attempts: usize) -> (r: ControlFlow<(), Duration>) {
        if attempts <= self.attempts {
            ControlFlow::Continue(self.delay)
        } else {
            ControlFlow::Break(())
        }
    }
}

impl RetryPolicy for NoRetry {
    open spec fn decision(&self, attempts: usize) -> ControlFlow<(), Duration> {
        ControlFlow::Break(())
    }

    fn should_retry(&self, _attempts: usize) -> (r: ControlFlow<(), Duration>) {
        ControlFlow::Break(())
    }
}

/// Asking a policy twice about the same failure count gives the same
/// answer twice.
pub proof fn lemma_answers_agree<P: RetryPolicy>(
    policy: P,
    attempts: usize,
    first: ControlFlow<(), Duration>,
    second: ControlFlow<(), Duration>,
)
    requires
        call_ensures(P::should_retry, (&policy, attempts), first),
        call_ensures(P::should_retry, (&policy, attempts), second),
    ensures
        first == second,
{
}

} // verus!

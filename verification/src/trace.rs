//! Whole sessions, as mathematics.
//!
//! `run` says what a session does when the operation's successive outcomes
//! are given in advance and every pause is waited out: how often the
//! operation is invoked, which failure counts the policy sees, which pauses
//! are made, and what comes back. The theorems below are stated of `run`.

use crate::policy::{Fixed, NoRetry, RetryPolicy};
use crate::session::{settled, Event, Phase, SessionModel, Step};
use std::ops::ControlFlow;
use std::time::Duration;
use vstd::prelude::*;

verus! {

/// What happened in a session.
pub struct Trace<V, E> {
    /// How often the operation was invoked.
    pub invocations: nat,
    /// The failure counts put before the policy, in order.
    pub consulted: Seq<usize>,
    /// The pauses made, in order.
    pub pauses: Seq<Duration>,
    /// What the session returned; `None` if the outcomes ran out before it
    /// was over.
    pub result: Option<Result<V, E>>,
}

/// The part of a session that starts in state `s`, where the next
/// invocations of the operation give `outcomes`, one after the other.
pub open spec fn run_from<P: RetryPolicy, V, E>(
    s: SessionModel,
    policy: P,
    outcomes: Seq<Result<V, E>>,
) -> Trace<V, E>
    decreases outcomes.len(),
{
    if outcomes.len() == 0 {
        Trace { invocations: 0, consulted: Seq::empty(), pauses: Seq::empty(), result: None }
    } else {
        let (next, step) = settled(s, policy, outcomes[0]);
        let asked = if outcomes[0] is Err {
            seq![next.attempts as usize]
        } else {
            Seq::empty()
        };
        match step {
            Step::Finish(result) => Trace {
                invocations: 1,
                consulted: asked,
                pauses: Seq::empty(),
                result: Some(result),
            },
            Step::Pause(delay) => {
                let rest = run_from(next.after(Event::Elapsed), policy, outcomes.drop_first());
                Trace {
                    invocations: 1 + rest.invocations,
                    consulted: asked + rest.consulted,
                    pauses: seq![delay] + rest.pauses,
                    result: rest.result,
                }
            },
        }
    }
}

/// A whole session under `policy`, where the operation's invocations give
/// `outcomes`, one after the other.
pub open spec fn run<P: RetryPolicy, V, E>(policy: P, outcomes: Seq<Result<V, E>>) -> Trace<V, E> {
    run_from(SessionModel::fresh(), policy, outcomes)
}

/// The sequence `first`, `first + 1`, and so on, of length `len`.
pub open spec fn counts(first: nat, len: nat) -> Seq<usize> {
    Seq::new(len, |i: int| (first + i) as usize)
}

proof fn lemma_fixed_exhausts_from<V, E>(
    s: SessionModel,
    policy: Fixed,
    outcomes: Seq<Result<V, E>>,
)
    requires
        s.phase == Phase::Invoking,
        s.attempts <= policy.attempts < usize::MAX,
        outcomes.len() > policy.attempts - s.attempts,
        forall|i: int| 0 <= i <= policy.attempts - s.attempts ==> (#[trigger] outcomes[i]) is Err,
    ensures
        ({
            let t = run_from(s, policy, outcomes);
            let left = (policy.attempts - s.attempts) as nat;
            &&& t.invocations == left + 1
            &&& t.result == Some(outcomes[left as int])
            &&& t.pauses == Seq::new(left, |i: int| policy.delay)
            &&& t.consulted == counts(s.attempts + 1, left + 1)
        }),
    decreases policy.attempts - s.attempts,
{
    let left = (policy.attempts - s.attempts) as nat;
    let t = run_from(s, policy, outcomes);
    assert(outcomes[0] is Err);
    if s.attempts < policy.attempts {
        let resumed = settled(s, policy, outcomes[0]).0.after(Event::Elapsed);
        let tail = outcomes.drop_first();
        assert forall|i: int| 0 <= i <= policy.attempts - resumed.attempts implies (
        #[trigger] tail[i]) is Err by {
            assert(tail[i] == outcomes[i + 1]);
        }
        lemma_fixed_exhausts_from(resumed, policy, tail);
        assert(tail[left - 1] == outcomes[left as int]);
    }
    assert(t.pauses =~= Seq::new(left, |i: int| policy.delay));
    assert(t.consulted =~= counts(s.attempts + 1, left + 1));
}

/// A fixed policy that allows `n` retries, on an operation that fails each
/// time: the operation is invoked `n + 1` times, after `n` pauses of the
/// policy's delay, the policy sees the counts 1 to `n + 1`, and the session
/// returns the failure of the last invocation. A session counts failures in
/// a `usize`, so `n + 1` has to fit in one.
pub proof fn lemma_fixed_exhausts<V, E>(policy: Fixed, outcomes: Seq<Result<V, E>>)
    requires
        policy.attempts < usize::MAX,
        outcomes.len() > policy.attempts,
        forall|i: int| 0 <= i <= policy.attempts ==> (#[trigger] outcomes[i]) is Err,
    ensures
        run(policy, outcomes).invocations == policy.attempts + 1,
        run(policy, outcomes).result == Some(outcomes[policy.attempts as int]),
        run(policy, outcomes).pauses == Seq::new(policy.attempts as nat, |i: int| policy.delay),
        run(policy, outcomes).consulted == counts(1, policy.attempts as nat + 1),
{
    lemma_fixed_exhausts_from(SessionModel::fresh(), policy, outcomes);
}

/// Without retries, a failing operation is invoked once: the policy is
/// asked once, and the session returns that failure and makes no pause.
pub proof fn lemma_no_retry_fails_at_once<V, E>(policy: NoRetry, outcomes: Seq<Result<V, E>>)
    requires
        outcomes.len() >= 1,
        outcomes[0] is Err,
    ensures
        run(policy, outcomes).invocations == 1,
        run(policy, outcomes).result == Some(outcomes[0]),
        run(policy, outcomes).pauses.len() == 0,
        run(policy, outcomes).consulted == counts(1, 1),
{
    assert(run(policy, outcomes).consulted =~= counts(1, 1));
}

/// Whether `policy` asks for another attempt after each of the failure
/// counts from `from` up to, and without, `to`.
pub open spec fn continues_between<P: RetryPolicy>(policy: P, from: nat, to: nat) -> bool {
    forall|a: usize| from <= a < to ==> (#[trigger] policy.decision(a)) is Continue
}

proof fn lemma_success_ends_session_from<P: RetryPolicy, V, E>(
    s: SessionModel,
    policy: P,
    outcomes: Seq<Result<V, E>>,
    k: nat,
)
    requires
        s.phase == Phase::Invoking,
        1 <= k <= outcomes.len(),
        s.attempts + k - 1 <= usize::MAX,
        forall|i: int| 0 <= i < k - 1 ==> (#[trigger] outcomes[i]) is Err,
        outcomes[k - 1] is Ok,
        continues_between(policy, s.attempts + 1, s.attempts + k),
    ensures
        run_from(s, policy, outcomes).invocations == k,
        run_from(s, policy, outcomes).result == Some(outcomes[k - 1]),
        run_from(s, policy, outcomes).pauses.len() == k - 1,
        forall|i: int|
            0 <= i < k - 1 ==> policy.decision((s.attempts + 1 + i) as usize) == ControlFlow::<
                (),
                Duration,
            >::Continue(#[trigger] run_from(s, policy, outcomes).pauses[i]),
    decreases k,
{
    if k > 1 {
        assert(outcomes[0] is Err);
        assert(policy.decision((s.attempts + 1) as usize) is Continue);
        let resumed = settled(s, policy, outcomes[0]).0.after(Event::Elapsed);
        let tail = outcomes.drop_first();
        assert forall|i: int| 0 <= i < k - 2 implies (#[trigger] tail[i]) is Err by {
            assert(tail[i] == outcomes[i + 1]);
        }
        assert(tail[k - 2] == outcomes[k - 1]);
        lemma_success_ends_session_from(resumed, policy, tail, (k - 1) as nat);
        let t = run_from(s, policy, outcomes);
        let rest = run_from(resumed, policy, tail);
        assert forall|i: int| 0 <= i < k - 1 implies policy.decision(
            (s.attempts + 1 + i) as usize,
        ) == ControlFlow::<(), Duration>::Continue(#[trigger] t.pauses[i]) by {
            if i > 0 {
                assert(t.pauses[i] == rest.pauses[i - 1]);
                assert(s.attempts + 1 + i == resumed.attempts + 1 + (i - 1));
            }
        }
    }
}

/// Under any policy, an operation that succeeds at its `k`-th invocation,
/// after failures to which the policy answered with a pause each time, is
/// invoked `k` times and no more, and the session returns that success. The
/// pauses made before are those that the policy asked for.
pub proof fn lemma_success_ends_session<P: RetryPolicy, V, E>(
    policy: P,
    outcomes: Seq<Result<V, E>>,
    k: nat,
)
    requires
        1 <= k <= outcomes.len(),
        k - 1 <= usize::MAX,
        forall|i: int| 0 <= i < k - 1 ==> (#[trigger] outcomes[i]) is Err,
        outcomes[k - 1] is Ok,
        continues_between(policy, 1, k),
    ensures
        run(policy, outcomes).invocations == k,
        run(policy, outcomes).result == Some(outcomes[k - 1]),
        run(policy, outcomes).pauses.len() == k - 1,
        forall|i: int|
            0 <= i < k - 1 ==> policy.decision((i + 1) as usize) == ControlFlow::<
                (),
                Duration,
            >::Continue(#[trigger] run(policy, outcomes).pauses[i]),
{
    lemma_success_ends_session_from(SessionModel::fresh(), policy, outcomes, k);
}

/// Under a fixed policy that allows `n` retries, an operation that succeeds
/// at its `k`-th invocation, `k` being at most `n + 1`, is invoked `k` times
/// and no more, and the session returns that success.
pub proof fn lemma_fixed_success<V, E>(policy: Fixed, outcomes: Seq<Result<V, E>>, k: nat)
    requires
        1 <= k <= outcomes.len(),
        k <= policy.attempts + 1,
        forall|i: int| 0 <= i < k - 1 ==> (#[trigger] outcomes[i]) is Err,
        outcomes[k - 1] is Ok,
    ensures
        run(policy, outcomes).invocations == k,
        run(policy, outcomes).result == Some(outcomes[k - 1]),
        run(policy, outcomes).pauses == Seq::new((k - 1) as nat, |i: int| policy.delay),
{
    lemma_success_ends_session(policy, outcomes, k);
    let t = run(policy, outcomes);
    assert forall|i: int| 0 <= i < k - 1 implies #[trigger] t.pauses[i] == policy.delay by {
        assert(policy.decision((i + 1) as usize) == ControlFlow::<(), Duration>::Continue(
            t.pauses[i],
        ));
    }
    assert(t.pauses =~= Seq::new((k - 1) as nat, |i: int| policy.delay));
}

proof fn lemma_counts_up_from<P: RetryPolicy, V, E>(
    s: SessionModel,
    policy: P,
    outcomes: Seq<Result<V, E>>,
)
    requires
        s.phase == Phase::Invoking,
        s.attempts + outcomes.len() <= usize::MAX,
    ensures
        ({
            let t = run_from(s, policy, outcomes);
            &&& t.invocations <= outcomes.len()
            &&& t.consulted.len() <= t.invocations
            &&& forall|i: int|
                0 <= i < t.consulted.len() ==> #[trigger] t.consulted[i] == s.attempts + 1 + i
        }),
    decreases outcomes.len(),
{
    if outcomes.len() > 0 {
        let (next, step) = settled(s, policy, outcomes[0]);
        match step {
            Step::Finish(_) => {},
            Step::Pause(_) => {
                lemma_counts_up_from(next.after(Event::Elapsed), policy, outcomes.drop_first());
            },
        }
    }
}

/// In any session, the failure counts that the policy sees are 1, 2, 3 and
/// so on: each is one more than the one before, and none is seen twice.
pub proof fn lemma_attempts_count_up<P: RetryPolicy, V, E>(
    policy: P,
    outcomes: Seq<Result<V, E>>,
)
    requires
        outcomes.len() <= usize::MAX,
    ensures
        forall|i: int|
            0 <= i < run(policy, outcomes).consulted.len() ==> #[trigger] run(
                policy,
                outcomes,
            ).consulted[i] == i + 1,
{
    lemma_counts_up_from(SessionModel::fresh(), policy, outcomes);
}

/// Each pause of a session is the one that the policy asked for on the
/// failure count it saw just before, and the session makes no other: there
/// is one pause for each count seen, but for a last count on which the
/// policy stopped.
pub proof fn lemma_pauses_are_answers<P: RetryPolicy, V, E>(
    s: SessionModel,
    policy: P,
    outcomes: Seq<Result<V, E>>,
)
    requires
        s.phase == Phase::Invoking,
    ensures
        ({
            let t = run_from(s, policy, outcomes);
            &&& t.pauses.len() <= t.consulted.len() <= t.pauses.len() + 1
            &&& forall|i: int|
                0 <= i < t.pauses.len() ==> policy.decision(#[trigger] t.consulted[i])
                    == ControlFlow::<(), Duration>::Continue(t.pauses[i])
            &&& t.consulted.len() == t.pauses.len() + 1 ==> t.result is Some
                && t.result.unwrap() is Err && policy.decision(t.consulted.last()) is Break
        }),
    decreases outcomes.len(),
{
    if outcomes.len() > 0 {
        let (next, step) = settled(s, policy, outcomes[0]);
        match step {
            Step::Finish(_) => {},
            Step::Pause(_) => {
                lemma_pauses_are_answers(next.after(Event::Elapsed), policy, outcomes.drop_first());
            },
        }
    }
}


} // verus!

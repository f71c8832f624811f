//! One retry session as a state machine.
//!
//! A session starts in `Invoking`. The caller runs the operation and reports
//! what came of it; a failure is counted and put before the policy, whose
//! answer either ends the session or suspends it. When the pause is over the
//! session is `Invoking` again. The session itself never waits and never
//! runs the operation: it only decides.

use crate::policy::RetryPolicy;
use std::ops::ControlFlow;
use std::time::Duration;
use vstd::prelude::*;

verus! {

/// Where a session stands.
#[derive(Clone, Copy, Debug, PartialEq, Eq, Structural)]
pub enum Phase {
    /// The operation is to be invoked, or is running.
    Invoking,
    /// A failure was counted and awaits the policy's answer.
    Evaluating,
    /// The policy asked for a pause, which has not elapsed yet.
    Suspended,
    /// The operation succeeded: the session is over.
    Succeeded,
    /// The policy refused another attempt: the session is over.
    Failed,
    /// The session was aborted from outside: it is over.
    Cancelled,
}

/// What can happen to a session.
pub enum Event {
    /// The operation returned `Ok`.
    Success,
    /// The operation returned `Err`.
    Failure,
    /// The policy gave its answer on the failure last counted.
    Decision(ControlFlow<(), Duration>),
    /// The pause is over.
    Elapsed,
    /// The caller aborted the session.
    Cancel,
}

/// The mathematical state of a session: how many invocations have failed,
/// and the phase.
pub struct SessionModel {
    pub attempts: nat,
    pub phase: Phase,
}

impl SessionModel {
    /// The state in which every session starts.
    pub open spec fn fresh() -> SessionModel {
        SessionModel { attempts: 0, phase: Phase::Invoking }
    }

    /// A session is over once it succeeded, failed or was cancelled.
    pub open spec fn is_over(self) -> bool {
        self.phase == Phase::Succeeded || self.phase == Phase::Failed || self.phase
            == Phase::Cancelled
    }

    /// Whether `event` can happen in this state.
    pub open spec fn accepts(self, event: Event) -> bool {
        match event {
            Event::Success | Event::Failure => self.phase == Phase::Invoking,
            Event::Decision(_) => self.phase == Phase::Evaluating,
            Event::Elapsed => self.phase == Phase::Suspended,
            Event::Cancel => !self.is_over(),
        }
    }

    /// The state that follows `event`. Where the state does not accept the
    /// event, nothing changes.
    pub open spec fn after(self, event: Event) -> SessionModel {
        if !self.accepts(event) {
            self
        } else {
            match event {
                Event::Success => SessionModel { phase: Phase::Succeeded, ..self },
                Event::Failure => SessionModel {
                    attempts: self.attempts + 1,
                    phase: Phase::Evaluating,
                },
                Event::Decision(ControlFlow::Continue(_)) => SessionModel {
                    phase: Phase::Suspended,
                    ..self
                },
                Event::Decision(ControlFlow::Break(_)) => SessionModel {
                    phase: Phase::Failed,
                    ..self
                },
                Event::Elapsed => SessionModel { phase: Phase::Invoking, ..self },
                Event::Cancel => SessionModel { phase: Phase::Cancelled, ..self },
            }
        }
    }
}

impl SessionModel {
    /// The state after `events`, taken in order.
    pub open spec fn after_all(self, events: Seq<Event>) -> SessionModel
        decreases events.len(),
    {
        if events.len() == 0 {
            self
        } else {
            self.after(events[0]).after_all(events.drop_first())
        }
    }
}

/// A session that is over stays as it is, whatever happens next: it accepts
/// no event, and so never comes back to invoking the operation.
pub proof fn lemma_over_is_final(s: SessionModel, events: Seq<Event>)
    requires
        s.is_over(),
    ensures
        forall|e: Event| !s.accepts(e),
        s.after_all(events) == s,
    decreases events.len(),
{
    if events.len() > 0 {
        lemma_over_is_final(s, events.drop_first());
    }
}

/// Cancelling a session that is not over, one that is suspended in
/// particular, ends it with the failure count it had: whatever is
/// reported afterwards, it stays cancelled, and the operation is not to be
/// invoked again.
pub proof fn lemma_cancel_is_final(s: SessionModel, events: Seq<Event>)
    requires
        !s.is_over(),
    ensures
        s.after(Event::Cancel) == (SessionModel { attempts: s.attempts, phase: Phase::Cancelled }),
        s.after(Event::Cancel).after_all(events) == s.after(Event::Cancel),
        s.after(Event::Cancel).after_all(events).phase != Phase::Invoking,
{
    lemma_over_is_final(s.after(Event::Cancel), events);
}

/// The failure counter and phase of one retry session.
pub struct RetrySession {
    attempts: usize,
    phase: Phase,
}

impl View for RetrySession {
    type V = SessionModel;

    closed spec fn view(&self) -> SessionModel {
        SessionModel { attempts: self.attempts as nat, phase: self.phase }
    }
}

impl RetrySession {
    /// A session before its first invocation.
    pub fn new() -> (s: Self)
        ensures
            s@ == SessionModel::fresh(),
    {
        RetrySession { attempts: 0, phase: Phase::Invoking }
    }

    /// The number of invocations that have failed in this session.
    pub fn attempts(&self) -> (n: usize)
        ensures
            n == self@.attempts,
    {
        self.attempts
    }

    /// The phase the session is in.
    pub fn phase(&self) -> (p: Phase)
        ensures
            p == self@.phase,
    {
        self.phase
    }

    /// Reports what one invocation of the operation gave. A success ends
    /// the session; a failure is counted and awaits the policy's answer.
    pub fn record<V, E>(&mut self, outcome: &Result<V, E>)
        requires
            old(self)@.phase == Phase::Invoking,
            outcome is Err ==> old(self)@.attempts < usize::MAX,
        ensures
            final(self)@ == old(self)@.after(outcome_event(*outcome)),
    {
        match outcome {
            Ok(_) => {
                self.phase = Phase::Succeeded;
            },
            Err(_) => {
                self.attempts = self.attempts + 1;
                self.phase = Phase::Evaluating;
            },
        }
    }

    /// Puts the failure count before `policy` and follows its answer: the
    /// session fails, or is suspended for the duration returned.
    pub fn evaluate<P: RetryPolicy>(&mut self, policy: &P) -> (decision: ControlFlow<(), Duration>)
        requires
            old(self)@.phase == Phase::Evaluating,
        ensures
            decision == policy.decision(old(self)@.attempts as usize),
            final(self)@ == old(self)@.after(Event::Decision(decision)),
    {
        let decision = policy.should_retry(self.attempts);
        match decision {
            ControlFlow::Continue(_) => {
                self.phase = Phase::Suspended;
            },
            ControlFlow::Break(_) => {
                self.phase = Phase::Failed;
            },
        }
        decision
    }

    /// Reports that the pause is over: the operation is to be invoked again.
    pub fn resume(&mut self)
        requires
            old(self)@.phase == Phase::Suspended,
        ensures
            final(self)@ == old(self)@.after(Event::Elapsed),
    {
        self.phase = Phase::Invoking;
    }

    /// Aborts the session. One that is over already stays as it is.
    pub fn cancel(&mut self)
        ensures
            final(self)@ == old(self)@.after(Event::Cancel),
    {
        match self.phase {
            Phase::Invoking | Phase::Evaluating | Phase::Suspended => {
                self.phase = Phase::Cancelled;
            },
            _ => {},
        }
    }

    /// Takes the outcome of one invocation through to the next thing to do:
    /// a success is handed back; a failure is counted and put before
    /// `policy`, and is handed back, as it came, if the policy stops, or
    /// else the pause to make before the next invocation.
    pub fn settle<P: RetryPolicy, V, E>(&mut self, policy: &P, outcome: Result<V, E>) -> (step:
        Step<V, E>)
        requires
            old(self)@.phase == Phase::Invoking,
            outcome is Err ==> old(self)@.attempts < usize::MAX,
        ensures
            (final(self)@, step) == settled(old(self)@, *policy, outcome),
    {
        self.record(&outcome);
        match outcome {
            Ok(_) => Step::Finish(outcome),
            Err(_) => match self.evaluate(policy) {
                ControlFlow::Continue(delay) => Step::Pause(delay),
                ControlFlow::Break(_) => Step::Finish(outcome),
            },
        }
    }}

/// What the caller of a session does next.
#[derive(Debug, PartialEq, Eq)]
pub enum Step<V, E> {
    /// Wait for this long, report that the pause is over, and invoke the
    /// operation again.
    Pause(Duration),
    /// The session is over, with this result.
    Finish(Result<V, E>),
}

/// The event that an outcome of the operation is to the session.
pub open spec fn outcome_event<V, E>(outcome: Result<V, E>) -> Event {
    match outcome {
        Ok(_) => Event::Success,
        Err(_) => Event::Failure,
    }
}

/// The state after an invocation that gave `outcome`, and what the caller
/// does next. A failure is counted first, and the policy sees the new count.
pub open spec fn settled<P: RetryPolicy, V, E>(
    s: SessionModel,
    policy: P,
    outcome: Result<V, E>,
) -> (SessionModel, Step<V, E>) {
    let counted = s.after(outcome_event(outcome));
    match outcome {
        Ok(_) => (counted, Step::Finish(outcome)),
        Err(_) => {
            let decision = policy.decision(counted.attempts as usize);
            (
                counted.after(Event::Decision(decision)),
                match decision {
                    ControlFlow::Continue(delay) => Step::Pause(delay),
                    ControlFlow::Break(_) => Step::Finish(outcome),
                },
            )
        },
    }
}

} // verus!

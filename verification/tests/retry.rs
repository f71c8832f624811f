use retry_policy::policy::{Fixed, NoRetry, RetryPolicy};
use retry_policy::session::{Phase, RetrySession, Step};
use std::ops::ControlFlow;
use std::sync::Mutex;
use std::time::Duration;

/// Fails `cnt` times, then succeeds.
struct Erroring {
    cnt: usize,
    calls: usize,
}

impl Erroring {
    fn new(cnt: usize) -> Self {
        Self { cnt, calls: 0 }
    }

    async fn run(&mut self) -> Result<usize, usize> {
        self.calls += 1;
        if self.cnt > 0 {
            self.cnt -= 1;
            return Err(self.cnt);
        }
        Ok(self.cnt)
    }
}

/// A policy that notes each failure count it is asked about.
struct Noting {
    inner: Fixed,
    seen: Mutex<Vec<usize>>,
}

impl RetryPolicy for Noting {
    fn decision(&self, attempts: usize) -> ControlFlow<(), Duration> {
        self.inner.should_retry(attempts)
    }

    fn should_retry(&self, attempts: usize) -> ControlFlow<(), Duration> {
        self.seen.lock().unwrap().push(attempts);
        self.inner.should_retry(attempts)
    }
}

/// What a session driven to its end did.
struct Report {
    result: Result<usize, usize>,
    calls: usize,
    pauses: Vec<Duration>,
}

async fn retrying<P: RetryPolicy>(policy: &P, op: &mut Erroring) -> Report {
    let mut session = RetrySession::new();
    let mut pauses = Vec::new();
    loop {
        let res = op.run().await;
        assert_eq!(session.phase(), Phase::Invoking);
        assert!(session.attempts() < usize::MAX);
        match session.settle(policy, res) {
            Step::Finish(result) => {
                return Report { result, calls: op.calls, pauses };
            }
            Step::Pause(delay) => {
                pauses.push(delay);
                tokio::time::sleep(delay).await;
                session.resume();
            }
        }
    }
}

fn drive<P: RetryPolicy>(policy: &P, failures: usize) -> Report {
    let runtime = tokio::runtime::Builder::new_current_thread()
        .enable_time()
        .build()
        .unwrap();
    let mut op = Erroring::new(failures);
    runtime.block_on(retrying(policy, &mut op))
}

#[test]
fn test_retrying_macro_ok() {
    let policy = Fixed::new(10, Duration::new(0, 0));
    let r = drive(&policy, 5).result;
    assert!(r.is_ok());
}

#[test]
fn test_retrying_macro_err() {
    let policy = Fixed::new(3, Duration::new(0, 0));
    let r = drive(&policy, 5).result;
    assert!(r.is_err());
}

#[test]
fn fixed_keeps_what_it_was_made_with() {
    let policy = Fixed::new(7, Duration::from_millis(250));
    assert_eq!(policy.attempts, 7);
    assert_eq!(policy.delay, Duration::from_millis(250));
}

#[test]
fn fixed_continues_up_to_its_allowance() {
    let delay = Duration::from_millis(30);
    let policy = Fixed::new(3, delay);
    assert_eq!(policy.should_retry(1), ControlFlow::Continue(delay));
    assert_eq!(policy.should_retry(2), ControlFlow::Continue(delay));
    assert_eq!(policy.should_retry(3), ControlFlow::Continue(delay));
    assert_eq!(policy.should_retry(4), ControlFlow::Break(()));
    assert_eq!(policy.should_retry(usize::MAX), ControlFlow::Break(()));
}

#[test]
fn fixed_without_allowance_always_stops() {
    let policy = Fixed::new(0, Duration::from_secs(1));
    assert_eq!(policy.should_retry(1), ControlFlow::Break(()));
    assert_eq!(policy.should_retry(2), ControlFlow::Break(()));
}

#[test]
fn fixed_with_the_largest_allowance_never_stops() {
    let delay = Duration::from_millis(1);
    let policy = Fixed::new(usize::MAX, delay);
    assert_eq!(policy.should_retry(usize::MAX), ControlFlow::Continue(delay));
}

#[test]
fn fixed_answers_the_same_twice() {
    let policy = Fixed::new(2, Duration::from_millis(5));
    assert_eq!(policy.should_retry(2), policy.should_retry(2));
    assert_eq!(policy.should_retry(3), policy.should_retry(3));
}

#[test]
fn no_retry_always_stops() {
    assert_eq!(NoRetry.should_retry(0), ControlFlow::Break(()));
    assert_eq!(NoRetry.should_retry(1), ControlFlow::Break(()));
    assert_eq!(NoRetry.should_retry(usize::MAX), ControlFlow::Break(()));
}

#[test]
fn fixed_on_endless_failure_invokes_once_more_than_allowed() {
    let delay = Duration::from_millis(2);
    let policy = Fixed::new(3, delay);
    let report = drive(&policy, 100);
    assert_eq!(report.calls, 4);
    // The failure of the fourth invocation: 100 - 4 failures were left.
    assert_eq!(report.result, Err(96));
    assert_eq!(report.pauses, vec![delay, delay, delay]);
}

#[test]
fn no_retry_invokes_once_and_makes_no_pause() {
    let report = drive(&NoRetry, 100);
    assert_eq!(report.calls, 1);
    assert_eq!(report.result, Err(99));
    assert!(report.pauses.is_empty());
}

#[test]
fn success_ends_the_session_at_once() {
    let policy = Fixed::new(5, Duration::new(0, 0));
    let report = drive(&policy, 2);
    assert_eq!(report.calls, 3);
    assert_eq!(report.result, Ok(0));
    assert_eq!(report.pauses.len(), 2);
}

#[test]
fn success_at_the_first_invocation_asks_nothing() {
    let policy = Noting { inner: Fixed::new(5, Duration::new(0, 0)), seen: Mutex::new(Vec::new()) };
    let report = drive(&policy, 0);
    assert_eq!(report.calls, 1);
    assert_eq!(report.result, Ok(0));
    assert!(policy.seen.lock().unwrap().is_empty());
}

#[test]
fn success_at_the_last_allowed_invocation() {
    let policy = Fixed::new(3, Duration::new(0, 0));
    let report = drive(&policy, 3);
    assert_eq!(report.calls, 4);
    assert_eq!(report.result, Ok(0));
}

#[test]
fn policy_sees_each_count_once_and_in_order() {
    let policy = Noting { inner: Fixed::new(4, Duration::new(0, 0)), seen: Mutex::new(Vec::new()) };
    let report = drive(&policy, 100);
    assert_eq!(report.calls, 5);
    assert_eq!(*policy.seen.lock().unwrap(), vec![1, 2, 3, 4, 5]);
}

#[test]
fn three_retries_are_used_up_before_the_fifth_call() {
    let policy = Fixed::new(3, Duration::from_millis(0));
    let report = drive(&policy, 4);
    assert_eq!(report.calls, 4);
    assert_eq!(report.result, Err(0));
}

#[test]
fn ten_retries_reach_the_sixth_call() {
    let policy = Fixed::new(10, Duration::from_millis(0));
    let report = drive(&policy, 5);
    assert_eq!(report.calls, 6);
    assert_eq!(report.result, Ok(0));
}

#[test]
fn session_starts_invoking_with_no_failure() {
    let session = RetrySession::new();
    assert_eq!(session.phase(), Phase::Invoking);
    assert_eq!(session.attempts(), 0);
}

#[test]
fn session_walks_through_its_phases() {
    let delay = Duration::from_millis(9);
    let policy = Fixed::new(1, delay);
    let mut session = RetrySession::new();

    session.record(&Err::<u8, &str>("first"));
    assert_eq!(session.phase(), Phase::Evaluating);
    assert_eq!(session.attempts(), 1);
    assert_eq!(session.evaluate(&policy), ControlFlow::Continue(delay));
    assert_eq!(session.phase(), Phase::Suspended);
    session.resume();
    assert_eq!(session.phase(), Phase::Invoking);
    assert_eq!(session.attempts(), 1);

    session.record(&Err::<u8, &str>("second"));
    assert_eq!(session.attempts(), 2);
    assert_eq!(session.evaluate(&policy), ControlFlow::Break(()));
    assert_eq!(session.phase(), Phase::Failed);
    assert_eq!(session.attempts(), 2);
}

#[test]
fn recorded_success_ends_the_session() {
    let mut session = RetrySession::new();
    session.record(&Ok::<u8, &str>(1));
    assert_eq!(session.phase(), Phase::Succeeded);
    assert_eq!(session.attempts(), 0);
}

#[test]
fn settle_hands_back_the_last_failure_unchanged() {
    let policy = Fixed::new(1, Duration::from_millis(4));
    let mut session = RetrySession::new();
    let first: Result<u8, String> = Err(String::from("first"));
    assert_eq!(session.settle(&policy, first), Step::Pause(Duration::from_millis(4)));
    session.resume();
    let second: Result<u8, String> = Err(String::from("second"));
    assert_eq!(session.settle(&policy, second), Step::Finish(Err(String::from("second"))));
    assert_eq!(session.phase(), Phase::Failed);
}

#[test]
fn settle_hands_back_a_success() {
    let mut session = RetrySession::new();
    let outcome: Result<u8, String> = Ok(42);
    assert_eq!(session.settle(&NoRetry, outcome), Step::Finish(Ok(42)));
    assert_eq!(session.phase(), Phase::Succeeded);
    assert_eq!(session.attempts(), 0);
}

#[test]
fn cancel_while_suspended_ends_the_session() {
    let policy = Fixed::new(5, Duration::from_secs(3600));
    let mut session = RetrySession::new();
    let outcome: Result<u8, u8> = Err(1);
    assert_eq!(session.settle(&policy, outcome), Step::Pause(Duration::from_secs(3600)));
    session.cancel();
    assert_eq!(session.phase(), Phase::Cancelled);
    assert_eq!(session.attempts(), 1);
    session.cancel();
    assert_eq!(session.phase(), Phase::Cancelled);
}

#[test]
fn cancel_while_invoking_or_evaluating_ends_the_session() {
    let mut session = RetrySession::new();
    session.cancel();
    assert_eq!(session.phase(), Phase::Cancelled);

    let mut session = RetrySession::new();
    session.record(&Err::<u8, u8>(1));
    session.cancel();
    assert_eq!(session.phase(), Phase::Cancelled);
    assert_eq!(session.attempts(), 1);
}

#[test]
fn cancel_leaves_a_finished_session_as_it_is() {
    let mut session = RetrySession::new();
    session.record(&Ok::<u8, u8>(1));
    session.cancel();
    assert_eq!(session.phase(), Phase::Succeeded);

    let mut session = RetrySession::new();
    let outcome: Result<u8, u8> = Err(1);
    assert_eq!(session.settle(&NoRetry, outcome), Step::Finish(Err(1)));
    session.cancel();
    assert_eq!(session.phase(), Phase::Failed);
}

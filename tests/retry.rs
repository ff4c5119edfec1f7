use ergoreq::error::ErgoError;
use ergoreq::redirect::{AutoRedirectMiddleware, LocationHeader, RedirectOrigin, RedirectStep};
use ergoreq::retry::{PolicyDecision, RetryAction, RetryState, WaitAction};

#[test]
fn retry_success_finishes() {
    let mut st = RetryState::start(true);
    assert!(matches!(st.after_attempt(None), RetryAction::Finish));
    assert_eq!(st.retries, 0);
}

#[test]
fn retry_does_not_retry_too_many_redirects() {
    let mut st = RetryState::start(true);
    let e = ErgoError::TooManyRedirect("https://a.org/".to_string(), 5);
    assert!(matches!(st.after_attempt(Some(&e)), RetryAction::Finish));
    assert_eq!(st.retries, 0);
}

#[test]
fn retry_counts_other_failures() {
    let mut st = RetryState::start(true);
    let e = ErgoError::Internal("boom".to_string());
    assert!(matches!(st.after_attempt(Some(&e)), RetryAction::AskPolicy(1)));
    assert!(matches!(st.after_attempt(Some(&ErgoError::RedirectLocationEmpty)), RetryAction::AskPolicy(2)));
    assert_eq!(st.retries, 2);
}

#[test]
fn non_replayable_request_is_sent_once() {
    let mut st = RetryState::start(false);
    let e = ErgoError::Internal("boom".to_string());
    assert!(matches!(st.after_attempt(Some(&e)), RetryAction::Finish));
    assert_eq!(st.retries, 0);
}

#[test]
fn policy_answer_gives_wait() {
    assert!(matches!(RetryState::after_policy(&PolicyDecision::Retry(1_500), 1_000, true), WaitAction::Sleep(500)));
    assert!(matches!(RetryState::after_policy(&PolicyDecision::Retry(900), 1_000, true), WaitAction::Sleep(0)));
    assert!(matches!(RetryState::after_policy(&PolicyDecision::DoNotRetry, 1_000, true), WaitAction::GiveUp));
    assert!(matches!(RetryState::after_policy(&PolicyDecision::Retry(1_500), 1_000, false), WaitAction::GiveUp));
}

/// A transport that always redirects: one pass of the redirect loop with
/// the retry loop inside, around the first transport call.
fn redirect_pass(max: u64, calls: &mut u32) -> Result<(), ErgoError> {
    let m = AutoRedirectMiddleware::new(max);
    let origin = RedirectOrigin {
        method: "GET".to_string(),
        body: None,
        scheme: "https".to_string(),
        authority: "a.org".to_string(),
    };
    let mut st = AutoRedirectMiddleware::start("https://a.org/".to_string());
    // first call, through the retry loop: a redirect response is a success
    let mut retry = RetryState::start(true);
    *calls += 1;
    assert!(matches!(retry.after_attempt(None), RetryAction::Finish));
    loop {
        match m.step(&origin, &mut st, 302, &LocationHeader::Text("/again".to_string())) {
            RedirectStep::Follow(_) => *calls += 1,
            RedirectStep::Fail(e) => return Err(e),
            RedirectStep::Done => return Ok(()),
        }
    }
}

#[test]
fn redirect_failure_is_not_retried() {
    let mut calls = 0;
    let r = redirect_pass(3, &mut calls);
    assert!(matches!(r, Err(ErgoError::TooManyRedirect(_, 3))));
    assert_eq!(calls, 4);
    // a retry loop around the redirect loop does not repeat it
    let mut outer = RetryState::start(true);
    let e = match r {
        Err(e) => e,
        Ok(()) => panic!("expected a failure"),
    };
    assert!(matches!(outer.after_attempt(Some(&e)), RetryAction::Finish));
    assert_eq!(calls, 4);
}

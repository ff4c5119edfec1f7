//! The retry decisions: after each attempt, whether to hand the result back
//! or to ask the retry policy, and how long to wait on its answer.
use vstd::prelude::*;
use crate::error::ErgoError;
use crate::redirect::{
    always_redirects, lemma_always_redirects, redirect_run, too_many_with, LocationView, OriginView,
    StateView,
};

verus! {

/// How an attempt ended, as the retry loop sees it.
pub enum OutcomeView {
    Response,
    TooManyRedirects,
    OtherError,
}

pub open spec fn outcome_of(r: Option<&ErgoError>) -> OutcomeView {
    match r {
        None => OutcomeView::Response,
        Some(e) => if e is TooManyRedirect {
            OutcomeView::TooManyRedirects
        } else {
            OutcomeView::OtherError
        },
    }
}

/// What to do after an attempt.
pub enum RetryAction {
    /// Hand the result of the attempt back.
    Finish,
    /// Ask the retry policy, telling it how many retries have been made.
    AskPolicy(u32),
}

/// What the retry policy answered.
pub enum PolicyDecision {
    /// Retry at this time, in nanoseconds since the Unix epoch.
    Retry(u128),
    DoNotRetry,
}

/// What to do on the policy's answer.
pub enum WaitAction {
    /// Wait this many nanoseconds, then send the copy of the request.
    Sleep(u128),
    /// Hand the last error back.
    GiveUp,
}

/// The retry loop of one request: the retries made so far, and whether the
/// request can be sent again (its body could be copied).
pub struct RetryState {
    pub retries: u32,
    pub replayable: bool,
}

pub struct RetryView {
    pub retries: u32,
    pub replayable: bool,
}

impl View for RetryState {
    type V = RetryView;

    open spec fn view(&self) -> RetryView {
        RetryView { retries: self.retries, replayable: self.replayable }
    }
}

/// One decision after an attempt: a response, a failure for too many
/// redirects, or any failure of a request that cannot be sent again ends
/// the loop; any other failure counts one more retry and asks the policy.
pub open spec fn retry_step(st: RetryView, outcome: OutcomeView) -> (RetryAction, RetryView) {
    match outcome {
        OutcomeView::OtherError => if st.replayable {
            let n = if st.retries == u32::MAX { st.retries } else { (st.retries + 1) as u32 };
            (RetryAction::AskPolicy(n), RetryView { retries: n, ..st })
        } else {
            (RetryAction::Finish, st)
        },
        _ => (RetryAction::Finish, st),
    }
}

/// The retry loop over attempts that end as `outs` say, with the policy
/// answering "retry" or not as `retry` says: the number of attempts made.
pub open spec fn retry_run(st: RetryView, outs: Seq<OutcomeView>, retry: Seq<bool>) -> nat
    decreases outs.len(),
{
    if outs.len() == 0 {
        0
    } else {
        let (action, next) = retry_step(st, outs[0]);
        match action {
            RetryAction::Finish => 1,
            RetryAction::AskPolicy(_) => if retry.len() > 0 && retry[0] {
                1 + retry_run(next, outs.drop_first(), retry.drop_first())
            } else {
                1
            },
        }
    }
}

/// The wait before a retry at `at` when it is `now`: the time left, or
/// nothing where `at` has passed.
pub open spec fn wait_for(at: u128, now: u128) -> u128 {
    if at > now {
        (at - now) as u128
    } else {
        0
    }
}

impl RetryState {
    /// The state before the first attempt.
    pub fn start(replayable: bool) -> (r: RetryState)
        ensures
            r@ == (RetryView { retries: 0, replayable }),
    {
        RetryState { retries: 0, replayable }
    }

    /// Decides after an attempt that ended with `error` (`None`: a response).
    pub fn after_attempt(&mut self, error: Option<&ErgoError>) -> (r: RetryAction)
        ensures
            (r, final(self)@) == retry_step(old(self)@, outcome_of(error)),
    {
        let retryable = match error {
            None => false,
            Some(e) => !e.is_too_many_redirects(),
        };
        if retryable && self.replayable {
            if self.retries < u32::MAX {
                self.retries = self.retries + 1;
            }
            RetryAction::AskPolicy(self.retries)
        } else {
            RetryAction::Finish
        }
    }

    /// Decides on the policy's answer at the time `now` (nanoseconds since
    /// the Unix epoch), where `copy_made` says whether a fresh copy of the
    /// request could be made for the next attempt: sleep until the time the
    /// policy gives and send the copy, or give up where the policy says
    /// stop or no copy could be made.
    pub fn after_policy(decision: &PolicyDecision, now: u128, copy_made: bool) -> (r: WaitAction)
        ensures
            match decision {
                PolicyDecision::Retry(at) => if copy_made {
                    r == WaitAction::Sleep(wait_for(*at, now))
                } else {
                    r is GiveUp
                },
                PolicyDecision::DoNotRetry => r is GiveUp,
            },
    {
        match decision {
            PolicyDecision::Retry(at) => {
                if !copy_made {
                    WaitAction::GiveUp
                } else if *at > now {
                    WaitAction::Sleep(*at - now)
                } else {
                    WaitAction::Sleep(0)
                }
            },
            PolicyDecision::DoNotRetry => WaitAction::GiveUp,
        }
    }
}

/// A request whose body cannot be copied is sent once, whatever the
/// attempt gives and the policy says.
pub proof fn lemma_not_replayable_sent_once(retries: u32, outs: Seq<OutcomeView>, retry: Seq<bool>)
    requires
        outs.len() > 0,
    ensures
        retry_run(RetryView { retries, replayable: false }, outs, retry) == 1,
{
}

/// A failure for too many redirects is never retried: the loop ends after
/// that attempt, whatever the policy would say.
pub proof fn lemma_too_many_redirects_not_retried(st: RetryView, outs: Seq<OutcomeView>, retry: Seq<bool>)
    requires
        outs.len() > 0,
        outs[0] == OutcomeView::TooManyRedirects,
    ensures
        retry_run(st, outs, retry) == 1,
{
}

/// Against a transport that always redirects, with a retry policy that
/// always retries: the request fails for too many redirects with count
/// `max`, and the transport is called `max + 1` times, whether the retry
/// loop sits inside the redirect loop (it hands the first redirect
/// response back after one attempt) or around it (it does not retry the
/// failure).
pub proof fn lemma_redirect_failure_not_multiplied(
    max: u64,
    origin: OriginView,
    url: Seq<char>,
    rs: Seq<(u16, LocationView)>,
    st: RetryView,
    retry: Seq<bool>,
)
    requires
        always_redirects(origin, rs),
        rs.len() > max,
        forall|i: int| 0 <= i < retry.len() ==> retry[i],
    ensures
        ({
            let (end, last, n) = redirect_run(max, origin, StateView { count: 0, url }, rs);
            &&& too_many_with(end, max)
            &&& retry_run(st, seq![OutcomeView::Response], retry) + (n - 1) == max + 1
            &&& retry_run(st, seq![OutcomeView::TooManyRedirects], retry) * n == max + 1
        }),
{
    lemma_always_redirects(max, origin, StateView { count: 0, url }, rs);
    let ok = seq![OutcomeView::Response];
    let too_many = seq![OutcomeView::TooManyRedirects];
    assert(ok.len() == 1 && ok[0] == OutcomeView::Response);
    assert(too_many.len() == 1 && too_many[0] == OutcomeView::TooManyRedirects);
    assert(retry_run(st, ok, retry) == 1);
    assert(retry_run(st, too_many, retry) == 1);
}

} // verus!

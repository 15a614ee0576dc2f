//! Retry with backoff around transient vendor failures.
//!
//! Up to three attempts are made. A rate-limited response is retried after an
//! increasing delay (500 ms times the attempt number), except on the final
//! attempt, where it is handed to the response handler and fails there. A
//! transport-level failure sleeps a shorter increasing delay (250 ms times
//! the attempt number) and retries. Any other handler failure aborts at once.
//! Exhausting the attempts surfaces the last observed error.

use vstd::prelude::*;

verus! {

/// How many attempts the policy makes.
pub const RETRY_ATTEMPTS: u64 = 3;

/// How one attempt of a scripted exchange turns out.
#[derive(Clone, Copy, Debug, PartialEq, Eq, Structural)]
pub enum TrialResult {
    /// The request could not be sent at all.
    SendFailed,
    /// The vendor answered with a rate-limit status.
    RateLimited,
    /// The vendor answered and the handler accepted the response.
    Success,
    /// The vendor answered but the handler rejected the response.
    HandlerError,
}

/// What a caller should do with one attempt's response.
#[derive(Clone, Copy, Debug, PartialEq, Eq, Structural)]
pub enum RetryAction {
    /// Sleep for the given delay, then try again.
    SleepThenRetry { delay_ms: u64 },
    /// Hand the response to the handler; its verdict is final.
    RunHandler,
}

/// How a whole scripted run ends.
#[derive(Clone, Copy, Debug, PartialEq, Eq, Structural)]
pub enum RetryResult {
    /// The attempt with this index succeeded.
    Succeeded { attempt: usize },
    /// No attempt succeeded; the error of the trial with this index
    /// surfaces to the caller.
    Failed { error_trial: usize },
}

/// How one response class is treated on a given attempt (zero-based).
#[derive(Clone, Copy, Debug, PartialEq, Eq, Structural)]
pub enum ResponseClass {
    SendFailure,
    TooManyRequests,
    Other,
}

/// The per-attempt decision: a send failure always sleeps 250 ms times the
/// attempt number and retries; a rate-limit sleeps 500 ms times the attempt
/// number and retries, except on the last attempt; everything else goes to
/// the handler.
pub fn retry_action(attempt: u64, class: ResponseClass) -> (r: RetryAction)
    requires
        attempt < RETRY_ATTEMPTS,
    ensures
        class is SendFailure ==> r == (RetryAction::SleepThenRetry {
            delay_ms: (250 * (attempt + 1)) as u64,
        }),
        class is TooManyRequests && attempt < RETRY_ATTEMPTS - 1 ==> r
            == (RetryAction::SleepThenRetry { delay_ms: (500 * (attempt + 1)) as u64 }),
        class is TooManyRequests && attempt == RETRY_ATTEMPTS - 1 ==> r is RunHandler,
        class is Other ==> r is RunHandler,
{
    match class {
        ResponseClass::SendFailure => RetryAction::SleepThenRetry { delay_ms: 250 * (attempt + 1) },
        ResponseClass::TooManyRequests => {
            if attempt < RETRY_ATTEMPTS - 1 {
                RetryAction::SleepThenRetry { delay_ms: 500 * (attempt + 1) }
            } else {
                RetryAction::RunHandler
            }
        },
        ResponseClass::Other => RetryAction::RunHandler,
    }
}

/// The scripted run, starting at attempt `a`: the sleeps performed and how
/// the run ends. A rate-limited response on the final attempt fails in the
/// handler, since a rate-limit status is not a success status.
pub open spec fn retry_spec(trials: Seq<TrialResult>, a: int) -> (Seq<u64>, RetryResult)
    decreases RETRY_ATTEMPTS - a,
{
    if a < 0 || a >= RETRY_ATTEMPTS {
        (Seq::empty(), RetryResult::Failed { error_trial: 0 })
    } else {
        match trials[a] {
            TrialResult::Success => (Seq::empty(), RetryResult::Succeeded { attempt: a as usize }),
            TrialResult::HandlerError => (
                Seq::empty(),
                RetryResult::Failed { error_trial: a as usize },
            ),
            TrialResult::RateLimited => {
                if a < RETRY_ATTEMPTS - 1 {
                    let rec = retry_spec(trials, a + 1);
                    (seq![(500 * (a + 1)) as u64] + rec.0, rec.1)
                } else {
                    (Seq::empty(), RetryResult::Failed { error_trial: a as usize })
                }
            },
            TrialResult::SendFailed => {
                if a < RETRY_ATTEMPTS - 1 {
                    let rec = retry_spec(trials, a + 1);
                    (seq![(250 * (a + 1)) as u64] + rec.0, rec.1)
                } else {
                    (seq![(250 * (a + 1)) as u64], RetryResult::Failed { error_trial: a as usize })
                }
            },
        }
    }
}

/// Run the policy against a scripted sequence of attempt outcomes (one per
/// attempt the policy may make) and report every sleep and the final verdict.
pub fn run_retry_trace(trials: &Vec<TrialResult>) -> (r: (Vec<u64>, RetryResult))
    requires
        trials@.len() == RETRY_ATTEMPTS,
    ensures
        r.0@ == retry_spec(trials@, 0).0,
        r.1 == retry_spec(trials@, 0).1,
{
    let mut sleeps: Vec<u64> = Vec::new();
    let mut a: u64 = 0;
    while a < RETRY_ATTEMPTS
        invariant
            0 <= a <= RETRY_ATTEMPTS,
            trials@.len() == RETRY_ATTEMPTS,
            retry_spec(trials@, 0).0 == sleeps@ + retry_spec(trials@, a as int).0,
            retry_spec(trials@, 0).1 == retry_spec(trials@, a as int).1 || (a == RETRY_ATTEMPTS
                && retry_spec(trials@, 0).1 == RetryResult::Failed { error_trial: 0 }),
        decreases RETRY_ATTEMPTS - a,
    {
        let t = trials[a as usize];
        match t {
            TrialResult::Success => {
                proof {
                    assert(sleeps@ + Seq::<u64>::empty() =~= sleeps@);
                }
                return (sleeps, RetryResult::Succeeded { attempt: a as usize });
            },
            TrialResult::HandlerError => {
                proof {
                    assert(sleeps@ + Seq::<u64>::empty() =~= sleeps@);
                }
                return (sleeps, RetryResult::Failed { error_trial: a as usize });
            },
            TrialResult::RateLimited => {
                if a < RETRY_ATTEMPTS - 1 {
                    let ghost pre = sleeps@;
                    sleeps.push(500 * (a + 1));
                    proof {
                        assert(pre + (seq![(500 * (a as int + 1)) as u64] + retry_spec(
                            trials@,
                            a as int + 1,
                        ).0) =~= sleeps@ + retry_spec(trials@, a as int + 1).0);
                    }
                } else {
                    proof {
                        assert(sleeps@ + Seq::<u64>::empty() =~= sleeps@);
                    }
                    return (sleeps, RetryResult::Failed { error_trial: a as usize });
                }
            },
            TrialResult::SendFailed => {
                let ghost pre = sleeps@;
                sleeps.push(250 * (a + 1));
                if a < RETRY_ATTEMPTS - 1 {
                    proof {
                        assert(pre + (seq![(250 * (a as int + 1)) as u64] + retry_spec(
                            trials@,
                            a as int + 1,
                        ).0) =~= sleeps@ + retry_spec(trials@, a as int + 1).0);
                    }
                } else {
                    proof {
                        assert(pre + seq![(250 * (a as int + 1)) as u64] =~= sleeps@);
                        assert(sleeps@ + Seq::<u64>::empty() =~= sleeps@);
                    }
                    return (sleeps, RetryResult::Failed { error_trial: a as usize });
                }
            },
        }
        a = a + 1;
    }
    proof {
        assert(sleeps@ + Seq::<u64>::empty() =~= sleeps@);
    }
    (sleeps, RetryResult::Failed { error_trial: 0 })
}

/// The policy never sleeps more than once per attempt, and rate-limit sleeps
/// happen only before the final attempt: at most three sleeps in any run, and
/// at most two when no send failure occurs.
pub proof fn lemma_retry_sleep_cap(trials: Seq<TrialResult>, a: int)
    requires
        0 <= a <= RETRY_ATTEMPTS,
    ensures
        retry_spec(trials, a).0.len() <= RETRY_ATTEMPTS - a,
        (forall|i: int| a <= i < RETRY_ATTEMPTS ==> trials[i] != TrialResult::SendFailed)
            ==> retry_spec(trials, a).0.len() <= RETRY_ATTEMPTS - 1 - a || a == RETRY_ATTEMPTS,
    decreases RETRY_ATTEMPTS - a,
{
    if a < RETRY_ATTEMPTS {
        lemma_retry_sleep_cap(trials, a + 1);
    }
}

} // verus!

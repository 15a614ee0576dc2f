//! Retry-with-backoff and token-cache behaviour.

use rustchat::retry::retry_action;
use rustchat::retry::run_retry_trace;
use rustchat::retry::ResponseClass;
use rustchat::retry::RetryAction;
use rustchat::retry::RetryResult;
use rustchat::retry::TrialResult;
use rustchat::token_cache::ensure_token_model;
use rustchat::token_cache::store_token;
use rustchat::token_cache::token_action;
use rustchat::token_cache::CachedToken;
use rustchat::token_cache::TokenDecision;

#[test]
fn retry_two_rate_limits_then_success() {
    // Two rate-limited responses, then success: exactly two intervening
    // sleeps, and the success is returned.
    let trials = vec![TrialResult::RateLimited, TrialResult::RateLimited, TrialResult::Success];
    let (sleeps, result) = run_retry_trace(&trials);
    assert_eq!(sleeps, vec![500u64, 1000u64]);
    assert_eq!(result, RetryResult::Succeeded { attempt: 2 });
}

#[test]
fn retry_rate_limits_with_no_success_surface_last_error() {
    // Three consecutive rate-limited responses with no eventual success:
    // still two sleeps (cap of three attempts) and the last error surfaces.
    let trials = vec![
        TrialResult::RateLimited,
        TrialResult::RateLimited,
        TrialResult::RateLimited,
    ];
    let (sleeps, result) = run_retry_trace(&trials);
    assert_eq!(sleeps, vec![500u64, 1000u64]);
    assert_eq!(result, RetryResult::Failed { error_trial: 2 });
}

#[test]
fn retry_transport_failures_use_shorter_backoff() {
    let trials = vec![TrialResult::SendFailed, TrialResult::SendFailed, TrialResult::Success];
    let (sleeps, result) = run_retry_trace(&trials);
    assert_eq!(sleeps, vec![250u64, 500u64]);
    assert_eq!(result, RetryResult::Succeeded { attempt: 2 });
}

#[test]
fn retry_handler_error_aborts_immediately() {
    let trials = vec![TrialResult::HandlerError, TrialResult::Success, TrialResult::Success];
    let (sleeps, result) = run_retry_trace(&trials);
    assert!(sleeps.is_empty());
    assert_eq!(result, RetryResult::Failed { error_trial: 0 });
}

#[test]
fn retry_action_classifies_responses() {
    assert_eq!(
        retry_action(0, ResponseClass::TooManyRequests),
        RetryAction::SleepThenRetry { delay_ms: 500 }
    );
    assert_eq!(
        retry_action(1, ResponseClass::TooManyRequests),
        RetryAction::SleepThenRetry { delay_ms: 1000 }
    );
    assert_eq!(retry_action(2, ResponseClass::TooManyRequests), RetryAction::RunHandler);
    assert_eq!(
        retry_action(0, ResponseClass::SendFailure),
        RetryAction::SleepThenRetry { delay_ms: 250 }
    );
    assert_eq!(retry_action(0, ResponseClass::Other), RetryAction::RunHandler);
}

#[test]
fn cached_token_is_reused_until_expiry() {
    let mut cache: Option<CachedToken> = None;
    store_token(&mut cache, "bearer-1".to_string(), 1_000);
    match token_action(&cache, 999) {
        TokenDecision::UseCached(v) => assert_eq!(v, "bearer-1"),
        TokenDecision::Refresh => panic!("unexpired token must be reused"),
    }
    match token_action(&cache, 1_000) {
        TokenDecision::UseCached(_) => panic!("expired token must not be reused"),
        TokenDecision::Refresh => {}
    }
}

#[test]
fn empty_cache_forces_refresh() {
    let cache: Option<CachedToken> = None;
    assert!(matches!(token_action(&cache, 0), TokenDecision::Refresh));
}

#[test]
fn concurrent_calls_refresh_at_most_once_each() {
    // Two calls race on an empty cache: each performs at most one exchange,
    // and once a fresh token is stored, a later call performs none.
    let fresh_a = CachedToken { value: "tok-a".to_string(), expires_at: 2_000 };
    let fresh_b = CachedToken { value: "tok-b".to_string(), expires_at: 2_000 };

    let mut cache: Option<CachedToken> = None;
    let (bearer_a, refreshed_a) = ensure_token_model(&mut cache, 100, fresh_a);
    assert!(refreshed_a);
    assert_eq!(bearer_a, "tok-a");

    // The second racing call may also have seen the empty cache; it refreshes
    // once as well, and its token wins (last write).
    let mut racing_cache: Option<CachedToken> = None;
    let (bearer_b, refreshed_b) = ensure_token_model(&mut racing_cache, 100, fresh_b);
    assert!(refreshed_b);
    assert_eq!(bearer_b, "tok-b");

    // A call after a stored, unexpired token never re-fetches.
    let unused = CachedToken { value: "tok-c".to_string(), expires_at: 9_999 };
    let (bearer_c, refreshed_c) = ensure_token_model(&mut cache, 200, unused);
    assert!(!refreshed_c);
    assert_eq!(bearer_c, "tok-a");
}

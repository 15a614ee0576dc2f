//! The bearer-token cache consulted before each OAuth-authenticated call.
//!
//! A cached token is returned only while it has not expired; an absent or
//! expired token forces one refresh, whose result replaces the cache
//! wholesale. The lock that guards the cache against concurrent calls lives
//! with the caller; the decision logic here is what that lock protects.

use vstd::prelude::*;

verus! {

/// A bearer value together with the time it stops being usable.
#[derive(Clone, Debug)]
pub struct CachedToken {
    pub value: String,
    /// Seconds since the Unix epoch after which the token must not be used.
    pub expires_at: u64,
}

/// Whether a call at time `now` has to perform a token exchange.
pub open spec fn needs_refresh(cache: Option<CachedToken>, now: u64) -> bool {
    match cache {
        Some(t) => now >= t.expires_at,
        None => true,
    }
}

/// What a call should use for its bearer token.
#[derive(Clone, Debug)]
pub enum TokenDecision {
    /// The cached value, returned only while not expired.
    UseCached(String),
    /// No usable cached token: perform one exchange, then store its result.
    Refresh,
}

/// Consult the cache: a present, unexpired token is reused as it is; anything
/// else demands a refresh.
pub fn token_action(cache: &Option<CachedToken>, now: u64) -> (d: TokenDecision)
    ensures
        needs_refresh(*cache, now) ==> d is Refresh,
        !needs_refresh(*cache, now) ==> match d {
            TokenDecision::UseCached(v) => v@ == cache->Some_0.value@,
            TokenDecision::Refresh => false,
        },
{
    match cache {
        Some(t) => {
            if now < t.expires_at {
                TokenDecision::UseCached(t.value.clone())
            } else {
                TokenDecision::Refresh
            }
        },
        None => TokenDecision::Refresh,
    }
}

/// Replace the cache wholesale with a freshly exchanged token.
pub fn store_token(cache: &mut Option<CachedToken>, value: String, expires_at: u64)
    ensures
        (*final(cache)) matches Some(t) && t.value == value && t.expires_at == expires_at,
{
    *cache = Some(CachedToken { value, expires_at });
}

/// One call's whole token path, with the result of the exchange scripted:
/// the bearer value the call uses and whether it refreshed. A call refreshes
/// at most once, and never when the cache holds an unexpired token.
pub fn ensure_token_model(cache: &mut Option<CachedToken>, now: u64, exchanged: CachedToken) -> (r:
    (String, bool))
    ensures
        r.1 == needs_refresh(*old(cache), now),
        !r.1 ==> *final(cache) == *old(cache) && r.0@ == old(cache)->Some_0.value@,
        r.1 ==> (*final(cache) matches Some(t) && t == exchanged) && r.0@ == exchanged.value@,
{
    match token_action(&*cache, now) {
        TokenDecision::UseCached(v) => (v, false),
        TokenDecision::Refresh => {
            let bearer = exchanged.value.clone();
            store_token(cache, exchanged.value, exchanged.expires_at);
            (bearer, true)
        },
    }
}

/// A token stored by one call and still unexpired at the time of the next
/// call is reused: the second call performs no exchange.
pub proof fn lemma_unexpired_token_reused(t: CachedToken, now: u64)
    requires
        now < t.expires_at,
    ensures
        !needs_refresh(Some(t), now),
{
}

} // verus!

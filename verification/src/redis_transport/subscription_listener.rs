//! The reconnect schedule of the subscription listener.
use vstd::prelude::*;

verus! {

/// First wait before reconnecting, in milliseconds.
pub const REDIS_RECONNECT_INITIAL_MS: u64 = 1_000;

/// Longest wait between reconnects, in milliseconds.
pub const REDIS_RECONNECT_MAX_MS: u64 = 30_000;

/// Factor by which the wait grows after each drop.
pub const REDIS_RECONNECT_BACKOFF_MULTIPLIER: u64 = 2;

/// The wait after `current_ms`: doubled, capped at `REDIS_RECONNECT_MAX_MS`.
pub open spec fn reconnect_backoff(current_ms: u64) -> u64 {
    if current_ms * REDIS_RECONNECT_BACKOFF_MULTIPLIER > REDIS_RECONNECT_MAX_MS {
        REDIS_RECONNECT_MAX_MS
    } else {
        (current_ms * REDIS_RECONNECT_BACKOFF_MULTIPLIER) as u64
    }
}

/// The reconnect wait grows and stays capped: a wait within the cap is
/// never shortened, never passes the cap, and is doubled while doubling
/// stays within it; a longer wait never gives a shorter next one.
pub proof fn lemma_reconnect_backoff_grows_capped(current_ms: u64, longer_ms: u64)
    requires
        current_ms <= longer_ms,
    ensures
        reconnect_backoff(current_ms) <= REDIS_RECONNECT_MAX_MS,
        current_ms <= REDIS_RECONNECT_MAX_MS ==> current_ms <= reconnect_backoff(current_ms),
        current_ms * 2 <= REDIS_RECONNECT_MAX_MS ==> reconnect_backoff(current_ms) == current_ms * 2,
        reconnect_backoff(current_ms) <= reconnect_backoff(longer_ms),
{
}

/// Doubles the reconnect wait, capped.
pub fn next_backoff(current_ms: u64) -> (r: u64)
    ensures
        r == reconnect_backoff(current_ms),
{
    let doubled = match current_ms.checked_mul(REDIS_RECONNECT_BACKOFF_MULTIPLIER) {
        Some(d) => d,
        None => u64::MAX,
    };
    if doubled < REDIS_RECONNECT_MAX_MS {
        doubled
    } else {
        REDIS_RECONNECT_MAX_MS
    }
}

} // verus!

//! Seeding the candle buffers from REST before the live stream starts: the
//! snapshot requests, and the retry schedule when a seed attempt fails.
use vstd::prelude::*;

use crate::types::{interval_ms, CandleKey};

verus! {

/// How many times seeding is tried before startup gives up (this and the
/// waits below are tuning settings of this library).
pub const REST_SEED_MAX_ATTEMPTS: u32 = 5;

/// Wait before the second seed attempt, in milliseconds.
pub const REST_SEED_RETRY_INITIAL_MS: u64 = 1_000;

/// Longest wait between reconnects or seed attempts, in milliseconds.
pub const WS_RECONNECT_MAX_MS: u64 = 30_000;

/// Factor by which the wait grows after each failure.
pub const WS_RECONNECT_BACKOFF_MULTIPLIER: u64 = 2;

/// Closed candles kept per stream (a tuning setting of this library).
pub const MAX_LENGTH_CANDLE_BUFFER: usize = 100;

/// A request for one stream's candles between two times.
#[derive(Debug, Clone, Copy, PartialEq, Eq, Structural)]
pub struct CandleSnapshotRequest {
    pub key: CandleKey,
    pub start_time: u64,
    pub end_time: u64,
    pub max_candles: usize,
}

/// A REST request to the exchange's info endpoint.
#[derive(Debug, Clone, Copy, PartialEq, Eq, Structural)]
pub enum RestRequest {
    CandleSnapshot(CandleSnapshotRequest),
}

impl CandleSnapshotRequest {
    pub fn new(key: CandleKey, start_time: u64, end_time: u64, max_candles: usize) -> (r: CandleSnapshotRequest)
        ensures
            r == (CandleSnapshotRequest { key, start_time, end_time, max_candles }),
    {
        CandleSnapshotRequest { key, start_time, end_time, max_candles }
    }
}

/// The window of a stream's snapshot ends at `end_time` and is
/// `max_closed_candles` intervals long.
pub open spec fn seed_request(key: CandleKey, end_time: u64, max_closed_candles: usize) -> RestRequest {
    RestRequest::CandleSnapshot(
        CandleSnapshotRequest {
            key,
            start_time: (end_time - interval_ms(key.interval) * max_closed_candles) as u64,
            end_time,
            max_candles: max_closed_candles,
        },
    )
}

/// The window of every stream fits before `end_time`.
pub open spec fn windows_fit(keys: Seq<CandleKey>, end_time: u64, max_closed_candles: usize) -> bool {
    forall|i: int| 0 <= i < keys.len() ==> interval_ms((#[trigger] keys[i]).interval) * max_closed_candles <= end_time
}

/// One snapshot request per stream, long enough to fill its closed-candle
/// buffer for warm-up.
pub fn build_seed_requests(candle_keys: &[CandleKey], end_time: u64, max_closed_candles: usize) -> (r: Vec<RestRequest>)
    requires
        windows_fit(candle_keys@, end_time, max_closed_candles),
    ensures
        r@.len() == candle_keys@.len(),
        forall|i: int| 0 <= i < r@.len() ==> #[trigger] r@[i] == seed_request(candle_keys@[i], end_time, max_closed_candles),
{
    let mut requests: Vec<RestRequest> = Vec::new();
    let mut i: usize = 0;
    while i < candle_keys.len()
        invariant
            i <= candle_keys@.len(),
            windows_fit(candle_keys@, end_time, max_closed_candles),
            requests@.len() == i,
            forall|j: int| 0 <= j < i ==> #[trigger] requests@[j] == seed_request(candle_keys@[j], end_time, max_closed_candles),
        decreases candle_keys@.len() - i,
    {
        let candle_key = candle_keys[i];
        let ms = candle_key.interval.to_ms();
        proof {
            assert(interval_ms(candle_keys@[i as int].interval) * max_closed_candles <= end_time);
        }
        let span = ms * (max_closed_candles as u64);
        let start_time = end_time - span;
        requests.push(RestRequest::CandleSnapshot(CandleSnapshotRequest::new(candle_key, start_time, end_time, max_closed_candles)));
        i += 1;
    }
    requests
}

/// The wait after `current_ms`: doubled, capped at `WS_RECONNECT_MAX_MS`.
pub open spec fn seed_backoff(current_ms: u64) -> u64 {
    if current_ms * WS_RECONNECT_BACKOFF_MULTIPLIER > WS_RECONNECT_MAX_MS {
        WS_RECONNECT_MAX_MS
    } else {
        (current_ms * WS_RECONNECT_BACKOFF_MULTIPLIER) as u64
    }
}

/// The wait between seed attempts grows and stays capped: a wait within
/// the cap is never shortened, never passes the cap, and is doubled while
/// doubling stays within it; a longer wait never gives a shorter next one.
pub proof fn lemma_seed_backoff_grows_capped(current_ms: u64, longer_ms: u64)
    requires
        current_ms <= longer_ms,
    ensures
        seed_backoff(current_ms) <= WS_RECONNECT_MAX_MS,
        current_ms <= WS_RECONNECT_MAX_MS ==> current_ms <= seed_backoff(current_ms),
        current_ms * 2 <= WS_RECONNECT_MAX_MS ==> seed_backoff(current_ms) == current_ms * 2,
        seed_backoff(current_ms) <= seed_backoff(longer_ms),
{
}

/// Doubles the wait between seed retries, capped, so an outage is not hammered.
pub fn next_backoff(current_ms: u64) -> (r: u64)
    ensures
        r == seed_backoff(current_ms),
{
    let doubled = match current_ms.checked_mul(WS_RECONNECT_BACKOFF_MULTIPLIER) {
        Some(d) => d,
        None => u64::MAX,
    };
    if doubled > WS_RECONNECT_MAX_MS {
        WS_RECONNECT_MAX_MS
    } else {
        doubled
    }
}

/// Where the seeding of the buffers stands: which attempt is next and how
/// long to wait after it fails.
#[derive(Debug, Clone, Copy, PartialEq, Eq, Structural)]
pub struct SeedRetry {
    pub attempt: u32,
    pub backoff_ms: u64,
}

/// What to do after a failed seed attempt.
#[derive(Debug, Clone, Copy, PartialEq, Eq, Structural)]
pub enum SeedAction {
    /// Wait this long, then make the next attempt.
    RetryAfter(u64),
    /// Every attempt failed: give up and do not start the live stream.
    GiveUp,
}

/// What follows a failed attempt in state `r`: retry after the current
/// wait, with the wait doubled (capped) for the next time, while attempts
/// are left; give up after the last one.
pub open spec fn seed_step(r: SeedRetry) -> (SeedAction, SeedRetry) {
    if r.attempt < REST_SEED_MAX_ATTEMPTS {
        (SeedAction::RetryAfter(r.backoff_ms), SeedRetry { attempt: (r.attempt + 1) as u32, backoff_ms: seed_backoff(r.backoff_ms) })
    } else {
        (SeedAction::GiveUp, r)
    }
}

/// The first attempt, with the initial wait.
pub open spec fn seed_start() -> SeedRetry {
    SeedRetry { attempt: 1, backoff_ms: REST_SEED_RETRY_INITIAL_MS }
}

/// The retry state after `failures` failed attempts from the start.
pub open spec fn seed_state_after(failures: nat) -> SeedRetry
    decreases failures,
{
    if failures == 0 {
        seed_start()
    } else {
        seed_step(seed_state_after((failures - 1) as nat)).1
    }
}

/// Seeding makes exactly `REST_SEED_MAX_ATTEMPTS` attempts when they all
/// fail: every failure but the last is followed by a retry, the last by
/// giving up.
pub proof fn lemma_seed_attempts_bounded(failures: nat)
    requires
        failures < REST_SEED_MAX_ATTEMPTS,
    ensures
        seed_state_after(failures).attempt == failures + 1,
        failures + 1 < REST_SEED_MAX_ATTEMPTS ==> seed_step(seed_state_after(failures)).0 is RetryAfter,
        failures + 1 == REST_SEED_MAX_ATTEMPTS ==> seed_step(seed_state_after(failures)).0 == SeedAction::GiveUp,
    decreases failures,
{
    if failures > 0 {
        lemma_seed_attempts_bounded((failures - 1) as nat);
    }
}

impl SeedRetry {
    /// The first attempt, with the initial wait.
    pub fn start() -> (r: SeedRetry)
        ensures
            r == seed_start(),
    {
        SeedRetry { attempt: 1, backoff_ms: REST_SEED_RETRY_INITIAL_MS }
    }

    /// After attempt `self.attempt` failed: retry after the current wait,
    /// with the wait doubled (capped) for the next time, while attempts are
    /// left; give up after the last one.
    pub fn after_failure(&self) -> (r: (SeedAction, SeedRetry))
        ensures
            r == seed_step(*self),
    {
        if self.attempt < REST_SEED_MAX_ATTEMPTS {
            (SeedAction::RetryAfter(self.backoff_ms), SeedRetry { attempt: self.attempt + 1, backoff_ms: next_backoff(self.backoff_ms) })
        } else {
            (SeedAction::GiveUp, *self)
        }
    }
}

} // verus!

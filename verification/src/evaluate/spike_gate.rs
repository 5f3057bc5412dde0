//! The per-key state that stops the same candle from alerting the same
//! spike level twice.
use vstd::prelude::*;

use std::collections::HashMap;
use std::hash::Hash;

use crate::indicators::atr::NO_SPIKE_LEVEL;

verus! {

/// The candle a key last alerted on and the highest spike level it reached.
#[derive(Debug, Clone, Copy, PartialEq, Eq, Structural)]
pub struct LiveAlertState {
    pub open_time_ms: u64,
    pub last_spike_level: u64,
}

/// One evaluation at spike level `spike` (not `NO_SPIKE_LEVEL`) on the
/// candle opened at `open_time_ms`: the key's new state and whether it
/// alerts. A new candle starts over from no spike; the key alerts only when
/// it reaches a higher level than before on the same candle.
pub open spec fn gate_step(state: Option<LiveAlertState>, open_time_ms: u64, spike: u64) -> (LiveAlertState, bool) {
    let s0 = match state {
        Some(s) => s,
        None => LiveAlertState { open_time_ms, last_spike_level: NO_SPIKE_LEVEL },
    };
    let s1 = if s0.open_time_ms != open_time_ms {
        LiveAlertState { open_time_ms, last_spike_level: NO_SPIKE_LEVEL }
    } else {
        s0
    };
    if spike <= s1.last_spike_level {
        (s1, false)
    } else {
        (LiveAlertState { open_time_ms: s1.open_time_ms, last_spike_level: spike }, true)
    }
}

/// A candle alerts a spike level once: after an evaluation on the candle
/// opened at `open_time_ms` at level `spike`, a further evaluation on the
/// same candle alerts only at a higher level.
pub proof fn lemma_gate_alerts_level_once(state: Option<LiveAlertState>, open_time_ms: u64, spike: u64, next_spike: u64)
    requires
        next_spike <= spike,
    ensures
        !gate_step(Some(gate_step(state, open_time_ms, spike).0), open_time_ms, next_spike).1,
{
}

/// A new candle starts over: an evaluation on a candle other than the one
/// the state was kept for alerts at any spike level above `NO_SPIKE_LEVEL`.
pub proof fn lemma_gate_new_candle_alerts(state: LiveAlertState, open_time_ms: u64, spike: u64)
    requires
        state.open_time_ms != open_time_ms,
        spike > NO_SPIKE_LEVEL,
    ensures
        gate_step(Some(state), open_time_ms, spike).1,
        gate_step(Some(state), open_time_ms, spike).0 == (LiveAlertState { open_time_ms, last_spike_level: spike }),
{
}

/// The state stored for `key` in `m`, if any.
pub open spec fn state_of<K>(m: Map<K, LiveAlertState>, key: K) -> Option<LiveAlertState> {
    if m.contains_key(key) {
        Some(m[key])
    } else {
        None
    }
}

/// Whether `key` alerts at level `spike` on the candle opened at
/// `open_time_ms`; records the new state of `key`.
pub fn pass_gate<K: Hash + Eq + Copy>(states: &mut HashMap<K, LiveAlertState>, key: K, open_time_ms: u64, spike: u64) -> (fired: bool)
    requires
        vstd::std_specs::hash::obeys_key_model::<K>(),
    ensures
        final(states)@ == old(states)@.insert(key, gate_step(state_of(old(states)@, key), open_time_ms, spike).0),
        fired == gate_step(state_of(old(states)@, key), open_time_ms, spike).1,
{
    let mut state = match states.remove(&key) {
        Some(s) => s,
        None => LiveAlertState { open_time_ms, last_spike_level: NO_SPIKE_LEVEL },
    };
    if state.open_time_ms != open_time_ms {
        state.open_time_ms = open_time_ms;
        state.last_spike_level = NO_SPIKE_LEVEL;
    }
    let fired = if spike <= state.last_spike_level {
        false
    } else {
        state.last_spike_level = spike;
        true
    };
    states.insert(key, state);
    proof {
        assert(states@ =~= old(states)@.insert(key, gate_step(state_of(old(states)@, key), open_time_ms, spike).0));
    }
    fired
}

} // verus!

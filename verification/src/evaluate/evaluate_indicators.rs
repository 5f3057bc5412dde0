//! Breakout alerts from live ATR readings, with duplicate suppression per stream.
use vstd::prelude::*;

use std::collections::HashMap;

use crate::candle_store::MarketView;
use crate::evaluate::evaluate_atr::{live_reading, AtrEvaluation, AtrEvaluator};
use crate::evaluate::spike_gate::{gate_step, pass_gate, state_of, LiveAlertState};
use crate::event::{Alert, Event};
use crate::indicators::atr::{all_prices_in_range, true_range, ratio_level, ratio_of, spike_level, spike_level_of, ATR_BREAKOUT_RATIO, NO_SPIKE_LEVEL};
use crate::types::{stream_code, MAX_PRICE_TICKS};

verus! {

/// The breakout alert of a live reading `e`, if any, and the per-stream
/// states afterwards: the reading alerts at its spike level (multiples of
/// `ATR_BREAKOUT_RATIO`) when that level is above zero and above the level
/// the stream already alerted on for the same candle.
pub open spec fn breakout_step(states: Map<u8, LiveAlertState>, e: AtrEvaluation) -> (Map<u8, LiveAlertState>, Option<Alert>) {
    let spike = spike_level_of(e.live_tr as int, e.atr.tr_sum as int, e.atr.tr_count as int, ATR_BREAKOUT_RATIO as int) as u64;
    if spike == NO_SPIKE_LEVEL {
        (states, None)
    } else {
        let step = gate_step(state_of(states, stream_code(e.key)), e.open_time_ms, spike);
        (
            states.insert(stream_code(e.key), step.0),
            if step.1 {
                Some(
                    Alert {
                        coin: e.key.coin,
                        key: Some(e.key),
                        event: Event::AtrBreakout {
                            indicator_rule_id: None,
                            atr: e.atr,
                            live_tr: e.live_tr,
                            ratio: e.ratio,
                            spike_level: spike,
                            open_time_ms: e.open_time_ms,
                        },
                    },
                )
            } else {
                None
            },
        )
    }
}

/// A live reading alerts exactly when it reaches a spike level above zero
/// and either its stream has no record, the record is of another candle, or
/// the level is above the recorded one. An alert carries the reading, and
/// the stream's record becomes this candle at this level; without an alert
/// nothing changes. The records of other streams never change. The level
/// is the whole number of breakout multiples in the reading's ratio.
pub proof fn lemma_breakout_alerts_on_new_level(states: Map<u8, LiveAlertState>, e: AtrEvaluation, other: u8)
    requires
        other != stream_code(e.key),
    ensures
        e.ratio == ratio_of(e.live_tr, e.atr) ==> spike_level_of(
            e.live_tr as int,
            e.atr.tr_sum as int,
            e.atr.tr_count as int,
            ATR_BREAKOUT_RATIO as int,
        ) == ratio_level(e.ratio, ATR_BREAKOUT_RATIO as int),
        ({
            let level = spike_level_of(e.live_tr as int, e.atr.tr_sum as int, e.atr.tr_count as int, ATR_BREAKOUT_RATIO as int) as u64;
            let rec = state_of(states, stream_code(e.key));
            let step = breakout_step(states, e);
            &&& step.1 is Some <==> (level != NO_SPIKE_LEVEL && (rec is None || rec->0.open_time_ms != e.open_time_ms
                || level > rec->0.last_spike_level))
            &&& step.1 matches Some(a) ==> a == (Alert {
                coin: e.key.coin,
                key: Some(e.key),
                event: Event::AtrBreakout {
                    indicator_rule_id: None,
                    atr: e.atr,
                    live_tr: e.live_tr,
                    ratio: e.ratio,
                    spike_level: level,
                    open_time_ms: e.open_time_ms,
                },
            }) && step.0[stream_code(e.key)] == (LiveAlertState { open_time_ms: e.open_time_ms, last_spike_level: level })
            &&& step.1 is None ==> step.0 == states
            &&& state_of(step.0, other) == state_of(states, other)
        }),
{
    crate::indicators::atr::lemma_level_of_ratio(e.live_tr, e.atr, ATR_BREAKOUT_RATIO as int);
    let step = breakout_step(states, e);
    if step.1 is None {
        assert(step.0 =~= states);
    }
}

/// Evaluates live ATR breakouts of streams.
pub struct Evaluator {
    atr_evaluator: AtrEvaluator,
    atr_alerts: HashMap<u8, LiveAlertState>,
}

impl Evaluator {
    /// Per stream code: the candle and level it last alerted on.
    pub closed spec fn states(self) -> Map<u8, LiveAlertState> {
        self.atr_alerts@
    }

    /// How many closed candles a stream needs before it is evaluated.
    pub closed spec fn max_closed(self) -> usize {
        self.atr_evaluator.max_closed()
    }

    pub fn new(max_closed_candles: usize) -> (r: Evaluator)
        ensures
            r.states() == Map::<u8, LiveAlertState>::empty(),
            r.max_closed() == max_closed_candles,
    {
        Evaluator { atr_evaluator: AtrEvaluator::new(max_closed_candles), atr_alerts: HashMap::new() }
    }

    /// The alerts of one view: at most one breakout alert of the live ATR reading.
    pub fn evaluate(&mut self, view: MarketView<'_>) -> (r: Vec<Alert>)
        requires
            all_prices_in_range(view.closed_candles@),
            view.live_candle.prices_in_range(),
        ensures
            match live_reading(view.closed_candles@, *view.live_candle, old(self).max_closed() as int) {
                None => final(self).states() == old(self).states() && r@.len() == 0,
                Some(reading) => {
                    let e = AtrEvaluation {
                        key: *view.key,
                        atr: reading.0,
                        live_tr: reading.1,
                        ratio: ratio_of(reading.1, reading.0),
                        open_time_ms: view.live_candle.open_time_ms,
                    };
                    &&& final(self).states() == breakout_step(old(self).states(), e).0
                    &&& r@ == (match breakout_step(old(self).states(), e).1 {
                        Some(a) => seq![a],
                        None => Seq::<Alert>::empty(),
                    })
                },
            },
            final(self).max_closed() == old(self).max_closed(),
            forall|i: int|
                0 <= i < r@.len() ==> {
                    &&& (#[trigger] r@[i]).key == Some(*view.key)
                    &&& r@[i].event matches Event::AtrBreakout { live_tr, open_time_ms, .. } && live_tr as int
                        == true_range(view.closed_candles@.last(), *view.live_candle) && open_time_ms
                        == view.live_candle.open_time_ms
                },
    {
        let mut alerts: Vec<Alert> = Vec::new();
        match self.atr_evaluator.evaluate_live_atr(view) {
            Some(atr) => {
                match self.evaluate_atr_breakout(atr) {
                    Some(alert) => {
                        alerts.push(alert);
                    },
                    None => {},
                }
            },
            None => {},
        }
        proof {
            if alerts@.len() == 1 {
                assert(alerts@ =~= seq![alerts@[0]]);
            }
        }
        alerts
    }

    /// Gates one live reading (see `breakout_step`).
    fn evaluate_atr_breakout(&mut self, atr: AtrEvaluation) -> (r: Option<Alert>)
        requires
            atr.live_tr <= MAX_PRICE_TICKS,
        ensures
            (final(self).states(), r) == breakout_step(old(self).states(), atr),
            final(self).max_closed() == old(self).max_closed(),
    {
        let spike = spike_level(atr.live_tr, atr.atr, ATR_BREAKOUT_RATIO);
        if spike == NO_SPIKE_LEVEL {
            return None;
        }
        let code = atr.key.code();
        let fired = pass_gate(&mut self.atr_alerts, code, atr.open_time_ms, spike);
        if !fired {
            return None;
        }
        Some(
            Alert::indicator(
                atr.key,
                Event::AtrBreakout {
                    indicator_rule_id: None,
                    atr: atr.atr,
                    live_tr: atr.live_tr,
                    ratio: atr.ratio,
                    spike_level: spike,
                    open_time_ms: atr.open_time_ms,
                },
            ),
        )
    }
}

} // verus!

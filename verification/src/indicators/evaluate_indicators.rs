//! Live breakout check of a forming candle against the ATR of the closed
//! candles buffered for its stream.
use vstd::prelude::*;

use std::collections::HashMap;
use std::collections::VecDeque;

use crate::candle_store::candles_of;
use crate::evaluate::evaluate_atr::{live_reading, AtrEvaluation};
use crate::evaluate::evaluate_indicators::breakout_step;
use crate::evaluate::spike_gate::{pass_gate, LiveAlertState};
use crate::event::{Alert, Event};
use crate::indicators::atr::{
    all_prices_in_range, calculate_average_true_range, ratio_of, AtrRatio, calculate_true_range, spike_level, ATR_BREAKOUT_RATIO,
    MIN_VALID_ATR, NO_SPIKE_LEVEL,
};
use crate::indicators::atr::true_range;
use crate::types::{Candle, CandleKey};

verus! {

/// Checks forming candles for ATR breakouts; remembers per stream the candle
/// and spike level it last alerted on.
pub struct Evaluator {
    live_alerts: HashMap<u8, LiveAlertState>,
    max_closed_candles: usize,
}

impl Evaluator {
    /// Per stream code: the candle and level it last alerted on.
    pub closed spec fn states(self) -> Map<u8, LiveAlertState> {
        self.live_alerts@
    }

    /// How many closed candles a stream needs before it is evaluated.
    pub closed spec fn max_closed(self) -> usize {
        self.max_closed_candles
    }

    pub fn new(max_closed_candles: usize) -> (r: Evaluator)
        ensures
            r.states() == Map::<u8, LiveAlertState>::empty(),
            r.max_closed() == max_closed_candles,
    {
        Evaluator { live_alerts: HashMap::new(), max_closed_candles }
    }

    /// Checks the forming `candle` against the ATR baseline built only from
    /// the closed candles `buffer` holds for its stream (`None` when the
    /// stream has no buffer). Repeated alerts are held back until a higher
    /// ATR multiple is reached on the same candle.
    pub fn evaluate_live_breakout(&mut self, buffer: Option<&VecDeque<Candle>>, candle: &Candle) -> (r: Option<Alert>)
        requires
            buffer matches Some(b) ==> all_prices_in_range(b@),
            candle.prices_in_range(),
        ensures
            final(self).max_closed() == old(self).max_closed(),
            match buffer {
                None => r is None && final(self).states() == old(self).states(),
                Some(b) => match live_reading(b@, *candle, old(self).max_closed() as int) {
                    None => r is None && final(self).states() == old(self).states(),
                    Some(reading) => (final(self).states(), r) == breakout_step(
                        old(self).states(),
                        AtrEvaluation {
                            key: CandleKey { coin: candle.coin, interval: candle.interval },
                            atr: reading.0,
                            live_tr: reading.1,
                            ratio: ratio_of(reading.1, reading.0),
                            open_time_ms: candle.open_time_ms,
                        },
                    ),
                },
            },
            buffer matches Some(b) ==> (r matches Some(a) ==> {
                &&& a.key == Some(CandleKey { coin: candle.coin, interval: candle.interval })
                &&& a.event matches Event::AtrBreakout { live_tr, open_time_ms, .. } && live_tr as int == true_range(
                    b@.last(),
                    *candle,
                ) && open_time_ms == candle.open_time_ms
            }),
    {
        let key = CandleKey::create_key_from_candle(candle);
        let buf = match buffer {
            Some(b) => b,
            None => {
                return None;
            },
        };
        let n = buf.len();
        proof {
            crate::evaluate::evaluate_atr::lemma_live_reading_against_latest(buf@, *candle, self.max_closed_candles as int);
        }
        if n < self.max_closed_candles {
            return None;
        }
        let atr_input = candles_of(buf);
        let atr = match calculate_average_true_range(&atr_input) {
            Some(a) => a,
            None => {
                return None;
            },
        };
        let baseline = match atr.atr {
            Some(b) => b,
            None => {
                return None;
            },
        };
        proof {
            crate::evaluate::evaluators::indicators::atr_evaluator::lemma_closed_baseline_fits(atr_input@);
        }
        if baseline.tr_sum <= (MIN_VALID_ATR as u128) * (baseline.tr_count as u128) {
            return None;
        }
        let latest_closed = buf[n - 1];
        let live_tr = calculate_true_range(&latest_closed, candle);
        proof {
            crate::indicators::atr::lemma_true_range_bounds(latest_closed, *candle);
        }
        let ratio = AtrRatio::of(live_tr, baseline);
        let spike = spike_level(live_tr, baseline, ATR_BREAKOUT_RATIO);
        if spike == NO_SPIKE_LEVEL {
            return None;
        }
        let fired = pass_gate(&mut self.live_alerts, key.code(), candle.open_time_ms, spike);
        if !fired {
            return None;
        }
        Some(
            Alert::indicator(
                key,
                Event::AtrBreakout {
                    indicator_rule_id: None,
                    atr: baseline,
                    live_tr,
                    ratio,
                    spike_level: spike,
                    open_time_ms: candle.open_time_ms,
                },
            ),
        )
    }
}

} // verus!

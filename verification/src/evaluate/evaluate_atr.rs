//! Live ATR reading: the forming candle's true range against the ATR of the
//! closed candles.
use vstd::prelude::*;

use crate::candle_store::{candles_of, MarketView};
use crate::indicators::atr::{
    all_prices_in_range, baseline_at_most, calculate_average_true_range, calculate_true_range, true_range,
    ratio_of, tr_sum, AtrBaseline, AtrRatio, MIN_CANDLES_FOR_ATR, MIN_VALID_ATR,
};
use crate::types::{Candle, CandleKey};

verus! {

/// A live ATR reading of one stream.
#[derive(Debug, Clone, Copy, PartialEq, Eq, Structural)]
pub struct AtrEvaluation {
    pub key: CandleKey,
    pub atr: AtrBaseline,
    pub live_tr: u64,
    pub ratio: AtrRatio,
    pub open_time_ms: u64,
}

/// The live reading of closed candles `s` and forming candle `live` once at
/// least `max_closed_candles` are closed: the ATR baseline of `s` and the
/// true range of `live` against the last closed candle; none while the
/// buffer warms up, with fewer than `MIN_CANDLES_FOR_ATR` candles, or when
/// the baseline is at most `MIN_VALID_ATR`.
pub open spec fn live_reading(s: Seq<Candle>, live: Candle, max_closed_candles: int) -> Option<(AtrBaseline, u64)> {
    if s.len() < max_closed_candles || s.len() < MIN_CANDLES_FOR_ATR {
        None
    } else if baseline_at_most(tr_sum(s), s.len() - 1, MIN_VALID_ATR as int) {
        None
    } else {
        Some((
            AtrBaseline { tr_sum: tr_sum(s) as u128, tr_count: (s.len() - 1) as u64 },
            true_range(s[s.len() - 1], live) as u64,
        ))
    }
}

/// A live reading measures the forming candle against the latest closed
/// candle: when there is one, its true range is that of `live` against the
/// last candle of `s`, and its baseline is the sum and count of the true
/// ranges of `s`. There is one exactly when `s` holds at least
/// `max_closed_candles` and `MIN_CANDLES_FOR_ATR` candles and their mean
/// true range is above `MIN_VALID_ATR`.
pub proof fn lemma_live_reading_against_latest(s: Seq<Candle>, live: Candle, max_closed_candles: int)
    requires
        all_prices_in_range(s),
        live.prices_in_range(),
        s.len() <= usize::MAX,
    ensures
        live_reading(s, live, max_closed_candles) is Some <==> (s.len() >= max_closed_candles && s.len()
            >= MIN_CANDLES_FOR_ATR && tr_sum(s) > MIN_VALID_ATR * (s.len() - 1)),
        live_reading(s, live, max_closed_candles) matches Some(r) ==> {
            &&& r.1 as int == true_range(s[s.len() - 1], live)
            &&& r.0.tr_sum as int == tr_sum(s)
            &&& r.0.tr_count as int == s.len() - 1
        },
{
    if s.len() >= MIN_CANDLES_FOR_ATR {
        crate::indicators::atr::lemma_true_range_bounds(s[s.len() - 1], live);
        crate::evaluate::evaluators::indicators::atr_evaluator::lemma_closed_baseline_fits(s);
    }
}

/// Reads the live ATR of streams once their closed-candle buffer is full.
pub struct AtrEvaluator {
    max_closed_candles: usize,
}

impl AtrEvaluator {
    /// How many closed candles a stream needs before it is evaluated.
    pub closed spec fn max_closed(self) -> usize {
        self.max_closed_candles
    }

    pub fn new(max_closed_candles: usize) -> (r: AtrEvaluator)
        ensures
            r.max_closed() == max_closed_candles,
    {
        AtrEvaluator { max_closed_candles }
    }

    /// The live reading of the view (see `live_reading`), stamped with the
    /// stream and the forming candle's open time.
    pub fn evaluate_live_atr(&self, view: MarketView<'_>) -> (r: Option<AtrEvaluation>)
        requires
            all_prices_in_range(view.closed_candles@),
            view.live_candle.prices_in_range(),
        ensures
            r == (match live_reading(view.closed_candles@, *view.live_candle, self.max_closed() as int) {
                Some(reading) => Some(
                    AtrEvaluation {
                        key: *view.key,
                        atr: reading.0,
                        live_tr: reading.1,
                        ratio: ratio_of(reading.1, reading.0),
                        open_time_ms: view.live_candle.open_time_ms,
                    },
                ),
                None => None::<AtrEvaluation>,
            }),
            r matches Some(e) ==> e.live_tr <= crate::types::MAX_PRICE_TICKS,
            r matches Some(e) ==> {
                &&& e.live_tr as int == true_range(view.closed_candles@.last(), *view.live_candle)
                &&& e.atr.tr_sum as int == tr_sum(view.closed_candles@)
                &&& e.atr.tr_count as int == view.closed_candles@.len() - 1
                &&& e.open_time_ms == view.live_candle.open_time_ms
                &&& e.key == *view.key
            },
    {
        let closed = view.closed_candles;
        let n = closed.len();
        proof {
            lemma_live_reading_against_latest(view.closed_candles@, *view.live_candle, self.max_closed() as int);
        }
        if n < self.max_closed_candles {
            return None;
        }
        let atr_input = candles_of(closed);
        let atr = match calculate_average_true_range(&atr_input) {
            Some(a) => a,
            None => {
                return None;
            },
        };
        let baseline = match atr.atr {
            Some(b) => b,
            None => {
                return None;
            },
        };
        proof {
            crate::evaluate::evaluators::indicators::atr_evaluator::lemma_closed_baseline_fits(atr_input@);
        }
        if baseline.tr_sum <= (MIN_VALID_ATR as u128) * (baseline.tr_count as u128) {
            return None;
        }
        let latest_closed = closed[n - 1];
        let live_tr = calculate_true_range(&latest_closed, view.live_candle);
        proof {
            crate::indicators::atr::lemma_true_range_bounds(latest_closed, *view.live_candle);
        }
        let ratio = AtrRatio::of(live_tr, baseline);
        Some(AtrEvaluation { key: *view.key, atr: baseline, live_tr, ratio, open_time_ms: view.live_candle.open_time_ms })
    }
}

} // verus!

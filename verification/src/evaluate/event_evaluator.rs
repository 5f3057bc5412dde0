//! One entry point for price and indicator evaluation.
use vstd::prelude::*;

use crate::candle_store::CandleView;
use crate::evaluate::evaluators::indicator_evaluator::{indicator_fold, IndicatorEvaluator};
use crate::evaluate::evaluators::price_evaluator::{manual_events, PriceEvaluator};
use crate::evaluate::spike_gate::LiveAlertState;
use crate::event::{Alert, Event};
use crate::indicator_rules::IndicatorRule;
use crate::indicators::atr::all_prices_in_range;
use crate::price::alert::ManualPriceAlert;
use crate::price::key::ManualPriceDirection;
use crate::price::service::{lists_crossed_manual, PriceAlertService};
use crate::types::Coins;

verus! {

/// Evaluates price updates against manual alerts and candle views against
/// indicator rules.
pub struct EventEvaluator {
    price_evaluator: PriceEvaluator,
    indicator_evaluator: IndicatorEvaluator,
}

impl EventEvaluator {
    /// Per ATR rule identifier: the candle and level it last alerted on.
    pub closed spec fn atr_states(self) -> Map<u64, LiveAlertState> {
        self.indicator_evaluator.atr_states()
    }

    pub fn new() -> (r: EventEvaluator)
        ensures
            r.atr_states() == Map::<u64, LiveAlertState>::empty(),
    {
        EventEvaluator { price_evaluator: PriceEvaluator::new(), indicator_evaluator: IndicatorEvaluator::new() }
    }

    /// The alerts of the manual alerts the price move crosses (see
    /// `PriceEvaluator::evaluate_price`).
    pub fn evaluate_price(&self, alert_service: &PriceAlertService, coin: Coins, previous_price: i64, current_price: i64) -> (r: Vec<Alert>)
        requires
            alert_service.inv(),
        ensures
            forall|i: int|
                0 <= i < r@.len() ==> {
                    &&& (#[trigger] r@[i]).coin == coin
                    &&& r@[i].key is None
                    &&& r@[i].event matches Event::ManualPriceTriggered { previous_price: p, current_price: c, .. }
                        && p == previous_price && c == current_price
                },
            exists|ups: Seq<ManualPriceAlert>, downs: Seq<ManualPriceAlert>|
                {
                    &&& (previous_price > 0 && current_price > 0 ==> lists_crossed_manual(
                        ups,
                        alert_service.levels(coin, ManualPriceDirection::Above),
                        coin,
                        ManualPriceDirection::Above,
                        previous_price,
                        current_price,
                    ))
                    &&& (previous_price > 0 && current_price > 0 ==> lists_crossed_manual(
                        downs,
                        alert_service.levels(coin, ManualPriceDirection::Below),
                        coin,
                        ManualPriceDirection::Below,
                        previous_price,
                        current_price,
                    ))
                    &&& (!(previous_price > 0 && current_price > 0) ==> ups.len() == 0 && downs.len() == 0)
                    &&& r@ == manual_events(ups, coin, previous_price, current_price) + manual_events(
                        downs,
                        coin,
                        previous_price,
                        current_price,
                    )
                },
    {
        self.price_evaluator.evaluate_price(alert_service, coin, previous_price, current_price)
    }

    /// The alerts of the indicator rules on the view (see
    /// `IndicatorEvaluator::evaluate_indicator`).
    pub fn evaluate_indicators(&mut self, view: &CandleView<'_>, rules: &[IndicatorRule]) -> (r: Vec<Alert>)
        requires
            all_prices_in_range(view.closed_candles@),
        ensures
            (final(self).atr_states(), r@) == indicator_fold(old(self).atr_states(), view.closed_candles@, *view.key, rules@),
    {
        self.indicator_evaluator.evaluate_indicator(view, rules)
    }
}

} // verus!

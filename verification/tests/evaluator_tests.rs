use std::collections::VecDeque;

use market_engine::candle_store::CandleView;
use market_engine::evaluate::evaluators::indicator_evaluator::IndicatorEvaluator;
use market_engine::evaluate::evaluators::indicators::atr_evaluator::AtrEvaluator;
use market_engine::evaluate::evaluators::price_evaluator::PriceEvaluator;
use market_engine::indicator_rules::{AtrRule, IndicatorRule, IndicatorRuleId, IndicatorRuleKind};
use market_engine::price::service::PriceAlertService;
use market_engine::types::{Candle, CandleKey, Coins, Interval};

fn px(price: f64) -> u64 {
    (price * 1e8).round() as u64
}

fn ticks(price: f64) -> i64 {
    (price * 1e8).round() as i64
}

fn ratio(r: f64) -> u64 {
    (r * 1000.0).round() as u64
}

fn candle(open_time_ms: u64, high_price: f64, low_price: f64, close_price: f64) -> Candle {
    Candle {
        open_time_ms,
        close_time_ms: open_time_ms + 300_000,
        coin: Coins::HYPE,
        interval: Interval::M5,
        open_price: px(close_price),
        close_price: px(close_price),
        high_price: px(high_price),
        low_price: px(low_price),
        volume: px(1.0),
        trade_count: 1,
    }
}

fn candle_view<'a>(key: &'a CandleKey, closed_candles: &'a VecDeque<Candle>, live_candle: &'a Candle) -> CandleView<'a> {
    CandleView { key, closed_candles, live_candle }
}

fn atr_rule(breakout_ratio: f64) -> AtrRule {
    AtrRule { breakout_ratio: ratio(breakout_ratio), debug_ratio: ratio(0.8) }
}

fn indicator_rule(id: u64, key: CandleKey, breakout_ratio: f64) -> IndicatorRule {
    IndicatorRule { id: IndicatorRuleId(id), key, kind: IndicatorRuleKind::Atr(atr_rule(breakout_ratio)) }
}

fn volatile_closed_view() -> (CandleKey, VecDeque<Candle>, Candle) {
    (
        CandleKey::new(Coins::HYPE, Interval::M5),
        VecDeque::from([
            candle(0, 101.0, 99.0, 100.0),
            candle(300_000, 101.0, 99.0, 100.0),
            candle(600_000, 101.0, 99.0, 100.0),
            candle(900_000, 120.0, 90.0, 115.0),
        ]),
        candle(1_200_000, 100.5, 100.0, 100.5),
    )
}

#[test]
fn evaluate_price_with_empty_service_returns_no_alerts() {
    let evaluator = PriceEvaluator::new();
    let service = PriceAlertService::new();

    assert!(evaluator.evaluate_price(&service, Coins::HYPE, ticks(29.0), ticks(30.0)).is_empty());
}

#[test]
fn evaluate_indicators_with_no_rules_returns_no_alerts() {
    let mut evaluator = IndicatorEvaluator::new();
    let key = CandleKey::new(Coins::HYPE, Interval::M5);
    let closed_candles = VecDeque::from([candle(0, 101.0, 99.0, 100.0), candle(300_000, 101.0, 99.0, 100.0)]);
    let live_candle = candle(600_000, 106.0, 100.0, 106.0);
    let view = candle_view(&key, &closed_candles, &live_candle);

    assert!(evaluator.evaluate_indicator(&view, &[]).is_empty());
}

#[test]
fn indicator_evaluator_skips_rule_for_wrong_key() {
    let mut evaluator = IndicatorEvaluator::new();
    let view_key = CandleKey::new(Coins::HYPE, Interval::M5);
    let rule_key = CandleKey::new(Coins::HYPE, Interval::M15);
    let closed_candles = VecDeque::from([candle(0, 101.0, 99.0, 100.0), candle(300_000, 101.0, 99.0, 100.0)]);
    let live_candle = candle(600_000, 106.0, 100.0, 106.0);
    let view = candle_view(&view_key, &closed_candles, &live_candle);
    let rule = indicator_rule(1, rule_key, 2.5);

    assert!(evaluator.evaluate_indicator(&view, &[rule]).is_empty());
}

#[test]
fn atr_rule_with_high_threshold_does_not_alert() {
    let mut evaluator = AtrEvaluator::new();
    let key = CandleKey::new(Coins::HYPE, Interval::M5);
    let closed_candles = VecDeque::from([
        candle(0, 101.0, 99.0, 100.0),
        candle(300_000, 101.0, 99.0, 100.0),
        candle(600_000, 101.0, 99.0, 100.0),
    ]);
    let live_candle = candle(900_000, 106.0, 100.0, 106.0);
    let view = CandleView { key: &key, closed_candles: &closed_candles, live_candle: &live_candle };

    let alert = evaluator.evaluate_atr(&view, IndicatorRuleId(1), &atr_rule(4.0));

    assert!(alert.is_none());
}

#[test]
fn volatile_open_bar_does_not_affect_closed_only_atr() {
    let mut evaluator = AtrEvaluator::new();
    let key = CandleKey::new(Coins::HYPE, Interval::M5);
    let closed_candles = VecDeque::from([
        candle(0, 101.0, 99.0, 100.0),
        candle(300_000, 101.0, 99.0, 100.0),
        candle(600_000, 101.0, 99.0, 100.0),
    ]);
    let live_candle = candle(900_000, 150.0, 100.0, 150.0);
    let view = CandleView { key: &key, closed_candles: &closed_candles, live_candle: &live_candle };

    let alert = evaluator.evaluate_atr(&view, IndicatorRuleId(1), &atr_rule(2.5));

    assert!(alert.is_none());
}

#[test]
fn atr_rule_with_lower_threshold_alerts() {
    let mut evaluator = AtrEvaluator::new();
    let (key, closed_candles, live_candle) = volatile_closed_view();
    let view = CandleView { key: &key, closed_candles: &closed_candles, live_candle: &live_candle };

    let alert = evaluator.evaluate_atr(&view, IndicatorRuleId(1), &atr_rule(2.5));

    assert!(alert.is_some());
    assert_eq!(alert.unwrap().rule_id, IndicatorRuleId(1));
}

#[test]
fn duplicate_suppression_is_per_indicator_rule_id() {
    let mut evaluator = AtrEvaluator::new();
    let (key, closed_candles, live_candle) = volatile_closed_view();
    let view = CandleView { key: &key, closed_candles: &closed_candles, live_candle: &live_candle };

    let first = evaluator.evaluate_atr(&view, IndicatorRuleId(1), &atr_rule(2.5));
    let second = evaluator.evaluate_atr(&view, IndicatorRuleId(1), &atr_rule(2.5));
    let other_rule = evaluator.evaluate_atr(&view, IndicatorRuleId(2), &atr_rule(2.5));

    assert!(first.is_some());
    assert!(second.is_none());
    assert!(other_rule.is_some());
}

#[test]
fn atr_alert_reports_exact_reading() {
    let mut evaluator = AtrEvaluator::new();
    let (key, closed_candles, live_candle) = volatile_closed_view();
    let view = CandleView { key: &key, closed_candles: &closed_candles, live_candle: &live_candle };
    let alert = evaluator.evaluate_atr(&view, IndicatorRuleId(7), &atr_rule(1.0)).unwrap();
    // true ranges 2, 2 and 30: mean 34/3; the last bar reads 30 / (34/3) = 2.647 -> level 2
    assert_eq!(alert.atr.live_tr, px(30.0));
    assert_eq!(alert.atr.spike_level, 2);
    assert_eq!(alert.atr.ratio.numerator, px(30.0) as u128 * 3);
    assert_eq!(alert.atr.ratio.denominator, px(34.0) as u128);
    assert_eq!(alert.atr.open_time_ms, 900_000);
    let baseline = alert.atr.atr.unwrap();
    assert_eq!(baseline.tr_sum, px(34.0) as u128);
    assert_eq!(baseline.tr_count, 3);
    assert_eq!(alert.key, key);
}

#[test]
fn higher_spike_on_same_candle_alerts_again() {
    let mut evaluator = AtrEvaluator::new();
    let (key, closed_candles, live_candle) = volatile_closed_view();
    let view = CandleView { key: &key, closed_candles: &closed_candles, live_candle: &live_candle };
    assert_eq!(evaluator.evaluate_atr(&view, IndicatorRuleId(1), &atr_rule(2.5)).unwrap().atr.spike_level, 1);
    assert_eq!(evaluator.evaluate_atr(&view, IndicatorRuleId(1), &atr_rule(1.0)).unwrap().atr.spike_level, 2);
    assert!(evaluator.evaluate_atr(&view, IndicatorRuleId(1), &atr_rule(2.5)).is_none());
}

#[test]
fn indicator_evaluator_alerts_matching_rule() {
    let mut evaluator = IndicatorEvaluator::new();
    let (key, closed_candles, live_candle) = volatile_closed_view();
    let view = candle_view(&key, &closed_candles, &live_candle);
    let other = CandleKey::new(Coins::BTC, Interval::M5);
    let rules = [indicator_rule(1, key, 2.5), indicator_rule(2, other, 2.5), indicator_rule(3, key, 2.5)];
    let alerts = evaluator.evaluate_indicator(&view, &rules);
    assert_eq!(alerts.len(), 2);
    assert!(alerts.iter().all(|a| a.coin == Coins::HYPE && a.key == Some(key)));
    assert!(evaluator.evaluate_indicator(&view, &rules).is_empty());
}

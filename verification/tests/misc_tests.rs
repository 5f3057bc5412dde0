use std::collections::VecDeque;

use market_engine::evaluate::evaluate_indicators::Evaluator as ViewEvaluator;
use market_engine::event::Event;
use market_engine::indicators::atr::{calculate_average_true_range, calculate_true_range, spike_level, AtrBaseline, AtrRatio, ATR};
use market_engine::indicators::evaluate_indicators::Evaluator;
use market_engine::candle_store::CandleView;
use market_engine::redis_transport::subscription_listener::next_backoff as reconnect_next_backoff;
use market_engine::startup::{build_seed_requests, next_backoff, CandleSnapshotRequest, RestRequest, SeedAction, SeedRetry};
use market_engine::types::{Candle, CandleKey, Coins, Interval};
use market_engine::ws::ws_send::{Intervals, Subscription, SubscriptionType, WsMessage, Method};
use market_engine::ws_send::{Method as FirstMethod, Subscription as FirstSubscription, SubscriptionType as FirstType, WsSubscribe};

fn px(price: f64) -> u64 {
    (price * 1e8).round() as u64
}

fn candle(open_time_ms: u64, high: f64, low: f64, close: f64) -> Candle {
    Candle {
        open_time_ms,
        close_time_ms: open_time_ms + 300_000,
        coin: Coins::HYPE,
        interval: Interval::M5,
        open_price: px(close),
        close_price: px(close),
        high_price: px(high),
        low_price: px(low),
        volume: px(1.0),
        trade_count: 1,
    }
}

#[test]
fn coins_and_intervals_by_name() {
    assert_eq!(Coins::from_name("HYPE"), Some(Coins::HYPE));
    assert_eq!(Coins::from_name("btc"), None);
    assert_eq!(Interval::from_name("15m"), Some(Interval::M15));
    assert_eq!(Interval::from_name("2h"), None);
    assert_eq!(Interval::M5.to_ms(), 300_000);
    assert_eq!(Interval::H1.to_ms(), 3_600_000);
    let key = CandleKey::create_key_from_candle(&candle(0, 1.0, 1.0, 1.0));
    assert_eq!(key, CandleKey::new(Coins::HYPE, Interval::M5));
}

#[test]
fn true_range_and_average() {
    let a = candle(0, 101.0, 99.0, 100.0);
    let b = candle(300_000, 120.0, 90.0, 115.0);
    let c = candle(600_000, 116.0, 114.0, 115.0);
    assert_eq!(calculate_true_range(&a, &b), px(30.0));
    assert_eq!(calculate_true_range(&b, &c), px(2.0));
    let gap = candle(900_000, 131.0, 130.0, 130.5);
    assert_eq!(calculate_true_range(&c, &gap), px(16.0));
    let avg = calculate_average_true_range(&vec![a, b, c]).unwrap();
    assert_eq!(avg.atr, Some(AtrBaseline { tr_sum: px(32.0) as u128, tr_count: 2 }));
    assert!(calculate_average_true_range(&vec![a, b]).is_none());
    let live = ATR::from_average(AtrBaseline { tr_sum: 10, tr_count: 5 }).with_live(7, 99).unwrap();
    assert_eq!(live.live_tr, 7);
    assert_eq!(live.open_time_ms, 99);
    assert_eq!(live.ratio, AtrRatio { numerator: 35, denominator: 10 });
    assert_eq!(ATR::from_average(AtrBaseline { tr_sum: 10, tr_count: 5 }).ratio, AtrRatio { numerator: 0, denominator: 1 });
    assert_eq!(live.baseline(), Some(AtrBaseline { tr_sum: 10, tr_count: 5 }));
}

#[test]
fn spike_levels_count_breakout_multiples() {
    let baseline = AtrBaseline { tr_sum: 300, tr_count: 3 };
    assert_eq!(spike_level(0, baseline, 2500), 0);
    assert_eq!(spike_level(249, baseline, 2500), 0);
    assert_eq!(spike_level(250, baseline, 2500), 1);
    assert_eq!(spike_level(749, baseline, 2500), 2);
    assert_eq!(spike_level(1, AtrBaseline { tr_sum: 0, tr_count: 3 }, 2500), u64::MAX);
    assert_eq!(spike_level(1, baseline, 0), u64::MAX);
}

#[test]
fn live_breakout_alerts_once_per_level_and_candle() {
    let mut evaluator = Evaluator::new(3);
    let buffer: VecDeque<Candle> = VecDeque::from([
        candle(0, 101.0, 99.0, 100.0),
        candle(300_000, 101.0, 99.0, 100.0),
        candle(600_000, 101.0, 99.0, 100.0),
    ]);
    let quiet = candle(900_000, 100.5, 99.5, 100.0);
    assert!(evaluator.evaluate_live_breakout(Some(&buffer), &quiet).is_none());
    let live = candle(900_000, 110.0, 100.0, 110.0);
    let alert = evaluator.evaluate_live_breakout(Some(&buffer), &live).unwrap();
    match alert.event {
        Event::AtrBreakout { spike_level, live_tr, ratio, open_time_ms, .. } => {
            assert_eq!(live_tr, px(10.0));
            assert_eq!(ratio, AtrRatio { numerator: px(10.0) as u128 * 2, denominator: px(4.0) as u128 });
            assert_eq!(spike_level, 2);
            assert_eq!(open_time_ms, 900_000);
        },
        _ => panic!("expected a breakout"),
    }
    assert!(evaluator.evaluate_live_breakout(Some(&buffer), &live).is_none());
    let higher = candle(900_000, 116.0, 100.0, 116.0);
    assert!(evaluator.evaluate_live_breakout(Some(&buffer), &higher).is_some());
    let next_candle = candle(1_200_000, 110.0, 100.0, 110.0);
    assert!(evaluator.evaluate_live_breakout(Some(&buffer), &next_candle).is_some());
    assert!(evaluator.evaluate_live_breakout(None, &next_candle).is_none());
    let short: VecDeque<Candle> = buffer.iter().take(2).cloned().collect();
    assert!(Evaluator::new(3).evaluate_live_breakout(Some(&short), &live).is_none());
}

#[test]
fn view_evaluator_gives_at_most_one_alert() {
    let mut evaluator = ViewEvaluator::new(3);
    let key = CandleKey::new(Coins::HYPE, Interval::M5);
    let buffer: VecDeque<Candle> = VecDeque::from([
        candle(0, 101.0, 99.0, 100.0),
        candle(300_000, 101.0, 99.0, 100.0),
        candle(600_000, 101.0, 99.0, 100.0),
    ]);
    let live = candle(900_000, 110.0, 100.0, 110.0);
    let view = CandleView { key: &key, closed_candles: &buffer, live_candle: &live };
    assert_eq!(evaluator.evaluate(view).len(), 1);
    let view = CandleView { key: &key, closed_candles: &buffer, live_candle: &live };
    assert!(evaluator.evaluate(view).is_empty());
}

#[test]
fn seed_requests_cover_the_buffer_window() {
    let keys = [CandleKey::new(Coins::HYPE, Interval::M5), CandleKey::new(Coins::BTC, Interval::H1)];
    let requests = build_seed_requests(&keys, 1_000_000_000, 100);
    assert_eq!(requests.len(), 2);
    assert_eq!(requests[0], RestRequest::CandleSnapshot(CandleSnapshotRequest::new(keys[0], 1_000_000_000 - 30_000_000, 1_000_000_000, 100)));
    assert_eq!(requests[1], RestRequest::CandleSnapshot(CandleSnapshotRequest::new(keys[1], 1_000_000_000 - 360_000_000, 1_000_000_000, 100)));
}

#[test]
fn backoffs_double_up_to_their_caps() {
    assert_eq!(next_backoff(1_000), 2_000);
    assert_eq!(next_backoff(20_000), 30_000);
    assert_eq!(next_backoff(u64::MAX), 30_000);
    assert_eq!(reconnect_next_backoff(1_000), 2_000);
    assert_eq!(reconnect_next_backoff(16_000), 30_000);
    assert_eq!(reconnect_next_backoff(u64::MAX / 2 + 1), 30_000);
}

#[test]
fn seeding_gives_up_after_five_attempts() {
    let mut state = SeedRetry::start();
    let mut waits = Vec::new();
    loop {
        let (action, next) = state.after_failure();
        match action {
            SeedAction::RetryAfter(ms) => waits.push(ms),
            SeedAction::GiveUp => break,
        }
        state = next;
    }
    assert_eq!(waits, vec![1_000, 2_000, 4_000, 8_000]);
    assert_eq!(state.attempt, 5);
}

#[test]
fn subscriptions_refuse_blank_coins() {
    assert_eq!(Subscription::new(SubscriptionType::CANDLE, " \t".to_string(), None).err(), Some("coin cannot be empty".to_string()));
    let sub = Subscription::new(SubscriptionType::CANDLE, "HYPE".to_string(), Some(Intervals::OneHour)).unwrap();
    assert_eq!(sub.coin(), "HYPE");
    assert_eq!(sub.interval(), Some(Intervals::OneHour));
    let msg = WsMessage::new(Method::SUBSCRIBE, sub);
    assert_eq!(msg.method(), Method::SUBSCRIBE);
    assert_eq!(msg.subscription().sub_type(), SubscriptionType::CANDLE);
    assert!(FirstSubscription::new(FirstType::TRADES, "".to_string()).is_err());
    let first = FirstSubscription::new(FirstType::L2BOOK, "ETH".to_string()).unwrap();
    let _request = WsSubscribe::new(first, FirstMethod::UNSUBSCRIBE);
}

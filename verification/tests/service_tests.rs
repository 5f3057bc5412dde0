use market_engine::price::alert::ManualPriceAlert;
use market_engine::price::key::ManualPriceDirection;
use market_engine::price::service::PriceAlertService;
use market_engine::types::Coins;

fn ticks(price: f64) -> i64 {
    (price * 1e8).round() as i64
}

fn alert(direction: ManualPriceDirection) -> ManualPriceAlert {
    ManualPriceAlert::new(Coins::HYPE, ticks(42.0), direction)
}

#[test]
fn duplicate_subscriptions_require_two_unsubscribes() {
    let mut service = PriceAlertService::new();
    let key = service.subscribe(alert(ManualPriceDirection::Above)).unwrap();
    let reused_key = service.subscribe(alert(ManualPriceDirection::Above)).unwrap();

    assert_eq!(key, reused_key);
    assert!(service.unsubscribe(key).is_ok());
    assert!(service.unsubscribe(key).is_ok());
    assert!(service.unsubscribe(key).is_err());
}

#[test]
fn same_price_with_different_directions_uses_different_levels() {
    let mut service = PriceAlertService::new();
    let above = service.subscribe(alert(ManualPriceDirection::Above)).unwrap();
    let below = service.subscribe(alert(ManualPriceDirection::Below)).unwrap();

    assert_ne!(above, below);
    assert!(service.unsubscribe(above).is_ok());
    assert!(service.unsubscribe(below).is_ok());
}

#[test]
fn upward_cross_returns_and_removes_level() {
    let mut service = PriceAlertService::new();
    service.subscribe(alert(ManualPriceDirection::Above)).unwrap();

    let first = service.take_crossed(Coins::HYPE, ticks(40.0), ticks(43.0));
    let second = service.take_crossed(Coins::HYPE, ticks(40.0), ticks(43.0));

    assert_eq!(first.len(), 1);
    assert_eq!(first[0].trigger_price, ticks(42.0));
    assert_eq!(first[0].current_price, ticks(43.0));
    assert!(second.is_empty());
}

#[test]
fn downward_cross_returns_and_removes_level() {
    let mut service = PriceAlertService::new();
    service.subscribe(alert(ManualPriceDirection::Below)).unwrap();

    let alerts = service.take_crossed(Coins::HYPE, ticks(43.0), ticks(41.0));

    assert_eq!(alerts.len(), 1);
    assert_eq!(alerts[0].trigger_price, ticks(42.0));
    assert_eq!(alerts[0].direction, ManualPriceDirection::Below);
}

#[test]
fn crossing_removes_shared_level_once() {
    let mut service = PriceAlertService::new();
    service.subscribe(alert(ManualPriceDirection::Above)).unwrap();
    service.subscribe(alert(ManualPriceDirection::Above)).unwrap();

    assert_eq!(service.take_crossed(Coins::HYPE, ticks(40.0), ticks(43.0)).len(), 1);
    assert!(service.take_crossed(Coins::HYPE, ticks(40.0), ticks(43.0)).is_empty());
}

#[test]
fn movement_without_crossing_returns_no_alerts() {
    let mut service = PriceAlertService::new();
    service.subscribe(alert(ManualPriceDirection::Above)).unwrap();

    assert!(service.take_crossed(Coins::HYPE, ticks(39.0), ticks(41.0)).is_empty());
    assert!(service.take_crossed(Coins::HYPE, ticks(41.0), ticks(41.0)).is_empty());
}

#[test]
fn subscribe_refuses_non_positive_trigger() {
    let mut service = PriceAlertService::new();
    let err = service.subscribe(ManualPriceAlert::new(Coins::HYPE, -1, ManualPriceDirection::Above)).unwrap_err();
    assert_eq!(err.to_string(), "invalid trigger price");
}

#[test]
fn unsubscribe_unknown_level_is_not_found() {
    let mut service = PriceAlertService::new();
    let key = service.subscribe(alert(ManualPriceDirection::Above)).unwrap();
    service.unsubscribe(key).unwrap();
    let err = service.unsubscribe(key).unwrap_err();
    assert_eq!(err.to_string(), "alert not found");
}

#[test]
fn subscribed_alert_fires_when_crossed_and_only_once() {
    let mut service = PriceAlertService::new();
    service.subscribe(ManualPriceAlert::new(Coins::ETH, ticks(10.0), ManualPriceDirection::Below)).unwrap();
    service.subscribe(ManualPriceAlert::new(Coins::ETH, ticks(12.0), ManualPriceDirection::Below)).unwrap();
    service.subscribe(ManualPriceAlert::new(Coins::ETH, ticks(11.0), ManualPriceDirection::Above)).unwrap();
    let fired = service.take_crossed(Coins::ETH, ticks(13.0), ticks(9.5));
    let prices: Vec<i64> = fired.iter().map(|a| a.trigger_price).collect();
    assert_eq!(prices, vec![ticks(10.0), ticks(12.0)]);
    assert!(fired.iter().all(|a| a.current_price == ticks(9.5) && a.coin == Coins::ETH));
    assert!(service.take_crossed(Coins::ETH, ticks(13.0), ticks(9.5)).is_empty());
    let up = service.take_crossed(Coins::ETH, ticks(9.5), ticks(11.0));
    assert_eq!(up.len(), 1);
    assert_eq!(up[0].direction, ManualPriceDirection::Above);
}

#[test]
fn non_positive_prices_fire_nothing() {
    let mut service = PriceAlertService::new();
    service.subscribe(alert(ManualPriceDirection::Above)).unwrap();
    assert!(service.take_crossed(Coins::HYPE, 0, ticks(43.0)).is_empty());
    assert_eq!(service.crossed_above(Coins::HYPE, ticks(40.0), ticks(43.0)).len(), 1);
    assert!(service.crossed_below(Coins::HYPE, ticks(43.0), ticks(40.0)).is_empty());
}

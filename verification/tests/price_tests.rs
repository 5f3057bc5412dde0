use market_engine::price::alert::ManualPriceAlert;
use market_engine::price::key::ManualPriceDirection;
use market_engine::price_alert::alert_book::AlertBook;
use market_engine::types::Coins;

fn ticks(price: f64) -> i64 {
    (price * 1e8).round() as i64
}

fn alert(direction: ManualPriceDirection) -> ManualPriceAlert {
    ManualPriceAlert::new(Coins::HYPE, ticks(42.0), direction)
}

#[test]
fn tests_duplicate_insert_increments_subscriber_count() {
    let mut book = AlertBook::new();
    let key = book.insert_alert(alert(ManualPriceDirection::Above)).unwrap();
    let reused_key = book.insert_alert(alert(ManualPriceDirection::Above)).unwrap();

    assert_eq!(key, reused_key);
    assert_eq!(book.subscriber_count(&key), Some(2));
}

#[test]
fn tests_delete_decrements_before_removing_shared_alert() {
    let mut book = AlertBook::new();
    let key = book.insert_alert(alert(ManualPriceDirection::Above)).unwrap();
    book.insert_alert(alert(ManualPriceDirection::Above)).unwrap();

    let deleted = book.delete_alert(key).unwrap();

    assert_eq!(deleted.coin, Coins::HYPE);
    assert!(book.contains_key(&key));
    assert_eq!(book.subscriber_count(&key), Some(1));

    book.delete_alert(key).unwrap();

    assert!(!book.contains_key(&key));
    assert_eq!(book.subscriber_count(&key), None);
}

#[test]
fn tests_same_price_with_different_direction_is_different_alert() {
    let mut book = AlertBook::new();
    let above_key = book.insert_alert(alert(ManualPriceDirection::Above)).unwrap();
    let below_key = book.insert_alert(alert(ManualPriceDirection::Below)).unwrap();

    assert_ne!(above_key, below_key);
    assert_eq!(book.subscriber_count(&above_key), Some(1));
    assert_eq!(book.subscriber_count(&below_key), Some(1));
}

#[test]
fn crossed_above_returns_alerts_in_range() {
    let mut book = AlertBook::new();
    book.insert_alert(ManualPriceAlert::new(Coins::HYPE, ticks(41.0), ManualPriceDirection::Above)).unwrap();
    book.insert_alert(ManualPriceAlert::new(Coins::HYPE, ticks(43.0), ManualPriceDirection::Above)).unwrap();

    let alerts = book.alerts_crossed_above(Coins::HYPE, ticks(40.0), ticks(42.0));

    assert_eq!(alerts.len(), 1);
    assert_eq!(alerts[0].trigger_price, ticks(41.0));
}

#[test]
fn crossed_below_returns_alerts_in_range() {
    let mut book = AlertBook::new();
    book.insert_alert(ManualPriceAlert::new(Coins::HYPE, ticks(41.0), ManualPriceDirection::Below)).unwrap();
    book.insert_alert(ManualPriceAlert::new(Coins::HYPE, ticks(39.0), ManualPriceDirection::Below)).unwrap();

    let alerts = book.alerts_crossed_below(Coins::HYPE, ticks(42.0), ticks(40.0));

    assert_eq!(alerts.len(), 1);
    assert_eq!(alerts[0].trigger_price, ticks(41.0));
}

#[test]
fn no_crossing_returns_empty_alerts() {
    let mut book = AlertBook::new();
    book.insert_alert(alert(ManualPriceDirection::Above)).unwrap();
    book.insert_alert(alert(ManualPriceDirection::Below)).unwrap();

    assert!(book.alerts_crossed_above(Coins::HYPE, ticks(43.0), ticks(41.0)).is_empty());
    assert!(book.alerts_crossed_below(Coins::HYPE, ticks(41.0), ticks(43.0)).is_empty());
}

#[test]
fn crossed_above_lists_in_increasing_trigger_order() {
    let mut book = AlertBook::new();
    for p in [44.0, 41.0, 43.0, 42.0] {
        book.insert_alert(ManualPriceAlert::new(Coins::BTC, ticks(p), ManualPriceDirection::Above)).unwrap();
    }
    let alerts = book.alerts_crossed_above(Coins::BTC, ticks(41.0), ticks(43.0));
    let prices: Vec<i64> = alerts.iter().map(|a| a.trigger_price).collect();
    assert_eq!(prices, vec![ticks(42.0), ticks(43.0)]);
    assert!(book.alerts_crossed_above(Coins::ETH, ticks(41.0), ticks(43.0)).is_empty());
}

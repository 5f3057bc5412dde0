use market_engine::price::alert::ManualPriceAlert;
use market_engine::price::key::ManualPriceDirection;
use market_engine::price_alert::alert_book::AlertBook;
use market_engine::types::Coins;

fn ticks(price: f64) -> i64 {
    (price * 1e8).round() as i64
}

fn alert(direction: ManualPriceDirection) -> ManualPriceAlert {
    ManualPriceAlert::new(Coins::HYPE, ticks(42.0), direction)
}

#[test]
fn duplicate_insert_increments_subscriber_count() {
    let mut book = AlertBook::new();
    let key = book.insert_alert(alert(ManualPriceDirection::Above)).unwrap();
    let reused_key = book.insert_alert(alert(ManualPriceDirection::Above)).unwrap();

    assert_eq!(key, reused_key);
    assert_eq!(book.subscriber_count(&key), Some(2));
}

#[test]
fn delete_decrements_before_removing_shared_alert() {
    let mut book = AlertBook::new();
    let key = book.insert_alert(alert(ManualPriceDirection::Above)).unwrap();
    book.insert_alert(alert(ManualPriceDirection::Above)).unwrap();

    let deleted = book.delete_alert(key).unwrap();

    assert_eq!(deleted.coin, Coins::HYPE);
    assert!(book.contains_key(&key));
    assert_eq!(book.subscriber_count(&key), Some(1));

    book.delete_alert(key).unwrap();

    assert!(!book.contains_key(&key));
    assert_eq!(book.subscriber_count(&key), None);
}

#[test]
fn same_price_with_different_direction_is_different_alert() {
    let mut book = AlertBook::new();
    let above_key = book.insert_alert(alert(ManualPriceDirection::Above)).unwrap();
    let below_key = book.insert_alert(alert(ManualPriceDirection::Below)).unwrap();

    assert_ne!(above_key, below_key);
    assert_eq!(book.subscriber_count(&above_key), Some(1));
    assert_eq!(book.subscriber_count(&below_key), Some(1));
}

#[test]
fn alert_book_refuses_non_positive_trigger() {
    let mut book = AlertBook::new();
    let err = book.insert_alert(ManualPriceAlert::new(Coins::HYPE, 0, ManualPriceDirection::Above));
    assert!(err.is_err());
    assert_eq!(err.unwrap_err().to_string(), "invalid trigger price");
}

#[test]
fn alert_book_leave_undoes_join() {
    let mut book = AlertBook::new();
    let key = book.insert_alert(alert(ManualPriceDirection::Below)).unwrap();
    let other = book.insert_alert(alert(ManualPriceDirection::Below)).unwrap();
    assert_eq!(book.subscriber_count(&key), Some(2));
    book.delete_alert(other).unwrap();
    assert_eq!(book.subscriber_count(&key), Some(1));
    assert_eq!(book.get_alert(&key).map(|a| a.trigger_price), Some(ticks(42.0)));
}

#[test]
fn alert_book_delete_missing_is_error() {
    let mut book = AlertBook::new();
    let key = book.insert_alert(alert(ManualPriceDirection::Above)).unwrap();
    book.delete_alert(key).unwrap();
    assert!(book.delete_alert(key).is_err());
}

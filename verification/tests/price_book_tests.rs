use market_engine::price::book::PriceBook;
use market_engine::price::entry::PriceLevelEntry;
use market_engine::price::key::{ManualPriceDirection, PriceKey};
use market_engine::types::Coins;

fn ticks(price: f64) -> i64 {
    (price * 1e8).round() as i64
}

fn key(price: f64) -> PriceKey {
    PriceKey::from_ticks(ticks(price)).unwrap()
}

fn insert(book: &mut PriceBook, price: f64, direction: ManualPriceDirection) {
    book.insert(Coins::HYPE, key(price), direction, PriceLevelEntry::new(ticks(price)));
}

#[test]
fn shared_level_requires_two_removals() {
    let mut book = PriceBook::new();
    insert(&mut book, 42.0, ManualPriceDirection::Above);
    insert(&mut book, 42.0, ManualPriceDirection::Above);

    assert!(book.remove(Coins::HYPE, key(42.0), ManualPriceDirection::Above).is_some());
    assert!(book.remove(Coins::HYPE, key(42.0), ManualPriceDirection::Above).is_some());
    assert!(book.remove(Coins::HYPE, key(42.0), ManualPriceDirection::Above).is_none());
}

#[test]
fn delete_level_removes_all_subscribers() {
    let mut book = PriceBook::new();
    insert(&mut book, 42.0, ManualPriceDirection::Above);
    insert(&mut book, 42.0, ManualPriceDirection::Above);

    assert!(book.delete_level(Coins::HYPE, key(42.0), ManualPriceDirection::Above).is_some());
    assert!(book.delete_level(Coins::HYPE, key(42.0), ManualPriceDirection::Above).is_none());
}

#[test]
fn crossed_above_returns_only_levels_in_range() {
    let mut book = PriceBook::new();
    insert(&mut book, 41.0, ManualPriceDirection::Above);
    insert(&mut book, 43.0, ManualPriceDirection::Above);

    let levels = book.levels_crossed_above(Coins::HYPE, key(40.0), key(42.0));

    assert_eq!(levels.len(), 1);
    assert_eq!(levels[0].1.trigger_price, ticks(41.0));
}

#[test]
fn crossed_below_returns_only_levels_in_range() {
    let mut book = PriceBook::new();
    insert(&mut book, 41.0, ManualPriceDirection::Below);
    insert(&mut book, 39.0, ManualPriceDirection::Below);

    let levels = book.levels_crossed_below(Coins::HYPE, key(42.0), key(40.0));

    assert_eq!(levels.len(), 1);
    assert_eq!(levels[0].1.trigger_price, ticks(41.0));
}

#[test]
fn subscriber_count_tracks_shared_level() {
    let mut book = PriceBook::new();
    insert(&mut book, 42.0, ManualPriceDirection::Below);
    insert(&mut book, 42.0, ManualPriceDirection::Below);
    assert_eq!(book.subscriber_count(Coins::HYPE, key(42.0), ManualPriceDirection::Below), Some(2));
    let left = book.remove(Coins::HYPE, key(42.0), ManualPriceDirection::Below).unwrap();
    assert_eq!(left.subscriber_count(), 1);
    assert!(book.contains(Coins::HYPE, key(42.0), ManualPriceDirection::Below));
    assert!(!book.contains(Coins::HYPE, key(42.0), ManualPriceDirection::Above));
}

#[test]
fn crossed_range_bounds_are_half_open() {
    let mut book = PriceBook::new();
    insert(&mut book, 40.0, ManualPriceDirection::Above);
    insert(&mut book, 42.0, ManualPriceDirection::Above);
    let levels = book.levels_crossed_above(Coins::HYPE, key(40.0), key(42.0));
    assert_eq!(levels.len(), 1);
    assert_eq!(levels[0].0, key(42.0));
}

#[test]
fn price_key_refuses_non_positive_ticks() {
    assert!(PriceKey::from_ticks(0).is_none());
    assert!(PriceKey::from_ticks(-5).is_none());
    assert_eq!(PriceKey::from_ticks(7), Some(PriceKey(7)));
}

use market_engine::price::key::ManualPriceDirection;
use market_engine::price::resolve::{build_manual_price_alert, resolve_price_direction, ResolveError};
use market_engine::types::Coins;

fn ticks(price: f64) -> i64 {
    (price * 1e8).round() as i64
}

#[test]
fn resolve_price_direction_above_when_market_below_trigger() {
    assert_eq!(resolve_price_direction(ticks(65.0), ticks(70.0)).unwrap(), ManualPriceDirection::Above);
}

#[test]
fn resolve_price_direction_below_when_market_above_trigger() {
    assert_eq!(resolve_price_direction(ticks(75.0), ticks(70.0)).unwrap(), ManualPriceDirection::Below);
}

#[test]
fn resolve_price_direction_rejects_equal_reference_and_trigger() {
    assert!(resolve_price_direction(ticks(70.0), ticks(70.0)).is_err());
}

#[test]
fn build_manual_price_alert_infers_from_reference() {
    let alert = build_manual_price_alert(Coins::HYPE, ticks(70.0), None, Some(ticks(65.0))).unwrap();
    assert_eq!(alert.direction, ManualPriceDirection::Above);
}

#[test]
fn build_manual_price_alert_uses_explicit_direction_without_reference() {
    let alert = build_manual_price_alert(Coins::HYPE, ticks(70.0), Some(ManualPriceDirection::Below), None).unwrap();
    assert_eq!(alert.direction, ManualPriceDirection::Below);
}

#[test]
fn build_manual_price_alert_errors_when_direction_missing_and_no_reference() {
    assert!(build_manual_price_alert(Coins::HYPE, ticks(70.0), None, None).is_err());
}

#[test]
fn resolve_errors_name_their_inputs() {
    assert_eq!(
        resolve_price_direction(ticks(70.0), ticks(70.0)).unwrap_err(),
        ResolveError::ReferenceEqualsTrigger { reference: ticks(70.0), trigger: ticks(70.0) }
    );
    assert_eq!(
        build_manual_price_alert(Coins::ETH, ticks(70.0), None, None).unwrap_err(),
        ResolveError::NoReferencePrice { coin: Coins::ETH }
    );
    let explicit = build_manual_price_alert(Coins::BTC, ticks(70.0), Some(ManualPriceDirection::Above), Some(ticks(80.0))).unwrap();
    assert_eq!(explicit.direction, ManualPriceDirection::Above);
    assert_eq!(explicit.trigger_price, ticks(70.0));
}

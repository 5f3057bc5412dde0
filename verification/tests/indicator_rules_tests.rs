use market_engine::indicator_rules::{AtrRule, IndicatorRuleKind, IndicatorRuleService};
use market_engine::types::{CandleKey, Coins, Interval};

fn key(interval: Interval) -> CandleKey {
    CandleKey::new(Coins::HYPE, interval)
}

fn atr_rule() -> IndicatorRuleKind {
    IndicatorRuleKind::Atr(AtrRule { breakout_ratio: 2500, debug_ratio: 800 })
}

#[test]
fn subscribing_rules_assigns_unique_ids() {
    let mut service = IndicatorRuleService::new();

    let first = service.subscribe(key(Interval::M5), atr_rule());
    let second = service.subscribe(key(Interval::M15), atr_rule());

    assert_ne!(first.id, second.id);
}

#[test]
fn rules_are_returned_only_for_matching_key() {
    let mut service = IndicatorRuleService::new();
    let m5 = key(Interval::M5);
    let h1 = key(Interval::H1);

    service.subscribe(m5.clone(), atr_rule());

    assert_eq!(service.rules_for_key(&m5).len(), 1);
    assert!(service.rules_for_key(&h1).is_empty());
}

#[test]
fn unsubscribe_removes_matching_rule_and_clears_empty_key() {
    let mut service = IndicatorRuleService::new();
    let m5 = key(Interval::M5);
    let kind = atr_rule();

    let rule = service.subscribe(m5.clone(), kind.clone());
    assert_eq!(service.rules_for_key(&m5).len(), 1);

    let removed = service.unsubscribe(m5.clone(), kind).unwrap();
    assert_eq!(removed.id, rule.id);
    assert!(service.rules_for_key(&m5).is_empty());
}

#[test]
fn unsubscribe_errors_when_rule_missing() {
    let mut service = IndicatorRuleService::new();
    let err = service.unsubscribe(key(Interval::M5), atr_rule()).unwrap_err();
    assert_eq!(err.to_string(), "indicator rule not found");
}

#[test]
fn subscribe_default_atr_rules_creates_one_rule_per_key() {
    let mut service = IndicatorRuleService::new();
    let keys = [key(Interval::M5), key(Interval::M15), key(Interval::H1)];

    let ids = service.subscribe_default_atr_rules(&keys, 2500, 800);

    assert_eq!(ids.len(), keys.len());
    for key in keys {
        assert_eq!(service.rules_for_key(&key).len(), 1);
    }
}

#[test]
fn unsubscribe_removes_the_first_rule_of_the_kind() {
    let mut service = IndicatorRuleService::new();
    let m5 = key(Interval::M5);
    let other = IndicatorRuleKind::Atr(AtrRule { breakout_ratio: 3000, debug_ratio: 800 });
    let a = service.subscribe(m5, other);
    let b = service.subscribe(m5, atr_rule());
    let c = service.subscribe(m5, atr_rule());
    assert_eq!(b.id.0 + 1, c.id.0);
    let removed = service.unsubscribe(m5, atr_rule()).unwrap();
    assert_eq!(removed.id, b.id);
    let left: Vec<u64> = service.rules_for_key(&m5).iter().map(|r| r.id.0).collect();
    assert_eq!(left, vec![a.id.0, c.id.0]);
}

#[test]
fn default_rules_get_consecutive_ids_with_the_given_ratios() {
    let mut service = IndicatorRuleService::new();
    let first = service.subscribe(key(Interval::H1), atr_rule());
    let keys = [key(Interval::M5), key(Interval::M15)];
    let ids = service.subscribe_default_atr_rules(&keys, 1500, 500);
    assert_eq!(ids[0].0, first.id.0 + 1);
    assert_eq!(ids[1].0, first.id.0 + 2);
    let rule = service.rules_for_key(&keys[1])[0];
    assert_eq!(rule.kind, IndicatorRuleKind::Atr(AtrRule { breakout_ratio: 1500, debug_ratio: 500 }));
}

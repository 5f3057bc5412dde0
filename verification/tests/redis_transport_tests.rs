use market_engine::price::key::ManualPriceDirection;
use market_engine::redis_transport::command::SubscriptionCommand;
use market_engine::redis_transport::convert::{parse_command, parse_direction, to_subscription_manager, ConvertError};
use market_engine::redis_transport::incoming::{IncomingPriceSubscription, IncomingSubscription, IncomingSubscriptionType};
use market_engine::types::Coins;

fn ticks(price: f64) -> i64 {
    (price * 1e8).round() as i64
}

/// Builds the message the JSON text holds, field by field.
fn incoming_of(json: &str) -> IncomingSubscription {
    let value: serde_json::Value = serde_json::from_str(json).unwrap();
    let sub = &value["sub_type"];
    assert_eq!(sub["type"].as_str(), Some("price"));
    let coin = Coins::from_name(sub["coin"].as_str().unwrap()).unwrap();
    IncomingSubscription {
        command: value["command"].as_str().unwrap().to_string(),
        sub_type: IncomingSubscriptionType::Price(IncomingPriceSubscription {
            coin,
            trigger_price: ticks(sub["trigger_price"].as_f64().unwrap()),
            direction: sub["direction"].as_str().map(|s| s.to_string()),
        }),
    }
}

#[test]
fn deserializes_price_subscription() {
    let json = r#"{
        "command": "subscribe",
        "sub_type": {
            "type": "price",
            "coin": "HYPE",
            "trigger_price": 69.3,
            "direction": "below"
        }
    }"#;

    let incoming = incoming_of(json);
    let manager = to_subscription_manager(incoming).unwrap();

    assert_eq!(manager.command, SubscriptionCommand::Subscribe);
    assert_eq!(manager.price.coin, Coins::HYPE);
    assert_eq!(manager.price.trigger_price, ticks(69.3));
    assert_eq!(manager.price.direction, Some(ManualPriceDirection::Below));
}

#[test]
fn deserializes_price_subscription_without_direction() {
    let json = r#"{
        "command": "subscribe",
        "sub_type": {
            "type": "price",
            "coin": "HYPE",
            "trigger_price": 70.0
        }
    }"#;

    let incoming = incoming_of(json);
    let manager = to_subscription_manager(incoming).unwrap();

    assert_eq!(manager.price.coin, Coins::HYPE);
    assert_eq!(manager.price.trigger_price, ticks(70.0));
    assert_eq!(manager.price.direction, None);
}

fn price_message(command: &str, direction: Option<&str>) -> IncomingSubscription {
    IncomingSubscription {
        command: command.to_string(),
        sub_type: IncomingSubscriptionType::Price(IncomingPriceSubscription {
            coin: Coins::BTC,
            trigger_price: ticks(70.0),
            direction: direction.map(|d| d.to_string()),
        }),
    }
}

#[test]
fn words_match_without_regard_to_case() {
    assert_eq!(parse_command("UnSubscribe").unwrap(), SubscriptionCommand::Unsubscribe);
    assert_eq!(parse_direction("ABOVE").unwrap(), ManualPriceDirection::Above);
    let manager = to_subscription_manager(price_message("SUBSCRIBE", Some("Below"))).unwrap();
    assert_eq!(manager.price.direction, Some(ManualPriceDirection::Below));
}

#[test]
fn unknown_words_are_refused_with_the_word() {
    assert_eq!(
        to_subscription_manager(price_message("follow", Some("above"))).unwrap_err(),
        ConvertError::UnknownCommand("follow".to_string())
    );
    assert_eq!(
        to_subscription_manager(price_message("subscribe", Some("sideways"))).unwrap_err(),
        ConvertError::UnknownDirection("sideways".to_string())
    );
}

#[test]
fn blank_direction_is_left_to_inference() {
    let manager = to_subscription_manager(price_message("unsubscribe", Some("  \t"))).unwrap();
    assert_eq!(manager.command, SubscriptionCommand::Unsubscribe);
    assert_eq!(manager.price.direction, None);
    assert_eq!(manager.price.coin, Coins::BTC);
}

#[test]
fn conversion_errors_give_their_message_lowercased() {
    let err = to_subscription_manager(price_message("FoLLow", None)).unwrap_err();
    assert_eq!(err.to_string(), "unknown subscription command: follow");
    let err = parse_direction(" Above").unwrap_err();
    assert_eq!(err.to_string(), "unknown price direction:  above");
    let err = parse_direction("SIDEWAYS").unwrap_err();
    assert_eq!(err.to_string(), "unknown price direction: sideways");
}

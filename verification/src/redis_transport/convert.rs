//! Turns incoming subscription messages into subscription commands.
use vstd::prelude::*;

use crate::price::key::ManualPriceDirection;
use crate::redis_transport::command::{PriceSubscriptionSpec, SubscriptionCommand, SubscriptionManager};
use crate::redis_transport::incoming::{IncomingPriceSubscription, IncomingSubscription, IncomingSubscriptionType};
use crate::text::{all_whitespace, ascii_lowercase, lower_eq, trims_to_empty};

verus! {

/// Why a message could not be converted; carries the word as received.
#[derive(Debug, Clone, PartialEq, Eq)]
pub enum ConvertError {
    UnknownCommand(String),
    UnknownDirection(String),
}

/// The Unicode lowercase of a text, as `str::to_lowercase` gives it.
pub uninterp spec fn unicode_lowercase(s: Seq<char>) -> Seq<char>;

/// Calls `str::to_lowercase`. Claimed of it: the result depends on the
/// characters of `s` alone, and is named `unicode_lowercase`. What that
/// mapping is (Unicode's lowercase mapping of each character) is left
/// unsaid.
#[verifier::external_body]
fn to_lowercase(s: &str) -> (r: String)
    ensures
        r@ == unicode_lowercase(s@),
{
    s.to_lowercase()
}

/// The message of a conversion error: what was refused, with the word
/// lowercased.
pub open spec fn convert_error_message(e: ConvertError) -> Seq<char> {
    match e {
        ConvertError::UnknownCommand(w) => "unknown subscription command: "@ + unicode_lowercase(w@),
        ConvertError::UnknownDirection(w) => "unknown price direction: "@ + unicode_lowercase(w@),
    }
}

impl ConvertError {
    /// The message of this error.
    pub fn to_string(&self) -> (r: String)
        ensures
            r@ == convert_error_message(*self),
    {
        match self {
            ConvertError::UnknownCommand(w) => {
                let mut m = "unknown subscription command: ".to_string();
                let lower = to_lowercase(w.as_str());
                m.append(lower.as_str());
                m
            },
            ConvertError::UnknownDirection(w) => {
                let mut m = "unknown price direction: ".to_string();
                let lower = to_lowercase(w.as_str());
                m.append(lower.as_str());
                m
            },
        }
    }
}

/// The command a command word names, compared without regard to case.
pub open spec fn command_named(word: Seq<char>) -> Option<SubscriptionCommand> {
    if ascii_lowercase(word) == "subscribe"@ {
        Some(SubscriptionCommand::Subscribe)
    } else if ascii_lowercase(word) == "unsubscribe"@ {
        Some(SubscriptionCommand::Unsubscribe)
    } else {
        None
    }
}

/// The direction a direction word names, compared without regard to case.
pub open spec fn direction_named(word: Seq<char>) -> Option<ManualPriceDirection> {
    if ascii_lowercase(word) == "above"@ {
        Some(ManualPriceDirection::Above)
    } else if ascii_lowercase(word) == "below"@ {
        Some(ManualPriceDirection::Below)
    } else {
        None
    }
}

/// The external command word as `Subscribe` or `Unsubscribe`.
pub fn parse_command(command: &str) -> (r: Result<SubscriptionCommand, ConvertError>)
    ensures
        match command_named(command@) {
            Some(c) => r == Ok::<SubscriptionCommand, ConvertError>(c),
            None => r matches Err(ConvertError::UnknownCommand(w)) && w@ == command@,
        },
{
    if lower_eq(command, "subscribe") {
        Ok(SubscriptionCommand::Subscribe)
    } else if lower_eq(command, "unsubscribe") {
        Ok(SubscriptionCommand::Unsubscribe)
    } else {
        Err(ConvertError::UnknownCommand(command.to_string()))
    }
}

/// The external direction word as `Above` or `Below`.
pub fn parse_direction(direction: &str) -> (r: Result<ManualPriceDirection, ConvertError>)
    ensures
        match direction_named(direction@) {
            Some(d) => r == Ok::<ManualPriceDirection, ConvertError>(d),
            None => r matches Err(ConvertError::UnknownDirection(w)) && w@ == direction@,
        },
{
    if lower_eq(direction, "above") {
        Ok(ManualPriceDirection::Above)
    } else if lower_eq(direction, "below") {
        Ok(ManualPriceDirection::Below)
    } else {
        Err(ConvertError::UnknownDirection(direction.to_string()))
    }
}

/// The direction a received direction field gives: none when the field is
/// absent or blank, otherwise the direction its word names, if any.
pub open spec fn direction_field(direction: Option<Seq<char>>) -> Option<Option<ManualPriceDirection>> {
    match direction {
        None => Some(None),
        Some(w) => if all_whitespace(w) {
            Some(None)
        } else {
            match direction_named(w) {
                Some(d) => Some(Some(d)),
                None => None,
            }
        },
    }
}

/// The direction field of a received price subscription, as a string view.
pub open spec fn direction_text(incoming: &IncomingPriceSubscription) -> Option<Seq<char>> {
    match &incoming.direction {
        Some(s) => Some(s@),
        None => None,
    }
}

/// The wire price fields as a subscription spec; an absent or blank
/// direction is left to be inferred when the subscription is applied.
fn to_price_subscription_spec(incoming: IncomingPriceSubscription) -> (r: Result<PriceSubscriptionSpec, ConvertError>)
    ensures
        match direction_field(direction_text(&incoming)) {
            Some(d) => r == Ok::<PriceSubscriptionSpec, ConvertError>(
                PriceSubscriptionSpec { coin: incoming.coin, trigger_price: incoming.trigger_price, direction: d },
            ),
            None => r matches Err(ConvertError::UnknownDirection(w)) && Some(w@) == direction_text(&incoming),
        },
{
    let direction = match &incoming.direction {
        Some(s) => {
            if trims_to_empty(s.as_str()) {
                None
            } else {
                match parse_direction(s.as_str()) {
                    Ok(d) => Some(d),
                    Err(e) => {
                        return Err(e);
                    },
                }
            }
        },
        None => None,
    };
    Ok(PriceSubscriptionSpec { coin: incoming.coin, trigger_price: incoming.trigger_price, direction })
}

/// Converts a received message into a subscription command.
pub fn to_subscription_manager(incoming: IncomingSubscription) -> (r: Result<SubscriptionManager, ConvertError>)
    ensures
        match incoming.sub_type {
            IncomingSubscriptionType::Price(price) => match command_named(incoming.command@) {
                None => r matches Err(ConvertError::UnknownCommand(w)) && w@ == incoming.command@,
                Some(c) => match direction_field(direction_text(&price)) {
                    None => r matches Err(ConvertError::UnknownDirection(w)) && Some(w@) == direction_text(&price),
                    Some(d) => r == Ok::<SubscriptionManager, ConvertError>(
                        SubscriptionManager {
                            command: c,
                            price: PriceSubscriptionSpec { coin: price.coin, trigger_price: price.trigger_price, direction: d },
                        },
                    ),
                },
            },
        },
{
    let IncomingSubscriptionType::Price(price) = incoming.sub_type;
    let command = match parse_command(incoming.command.as_str()) {
        Ok(c) => c,
        Err(e) => {
            return Err(e);
        },
    };
    let spec = match to_price_subscription_spec(price) {
        Ok(s) => s,
        Err(e) => {
            return Err(e);
        },
    };
    Ok(SubscriptionManager { command, price: spec })
}

} // verus!

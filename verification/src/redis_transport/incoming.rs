//! Incoming subscription messages as they are read from the wire.
use vstd::prelude::*;

use crate::types::Coins;

verus! {

/// A subscription message: a command word and what it applies to.
pub struct IncomingSubscription {
    pub command: String,
    pub sub_type: IncomingSubscriptionType,
}

/// The kinds of subscriptions a message can carry.
pub enum IncomingSubscriptionType {
    Price(IncomingPriceSubscription),
}

/// A price subscription as received: trigger price in ticks and an optional
/// direction word.
pub struct IncomingPriceSubscription {
    pub coin: Coins,
    pub trigger_price: i64,
    pub direction: Option<String>,
}

} // verus!

//! Subscription commands applied by the market-data loop.
use vstd::prelude::*;

use crate::price::key::ManualPriceDirection;
use crate::types::Coins;

verus! {

/// Whether a subscription is added or removed.
#[derive(Debug, Clone, Copy, PartialEq, Eq, Structural)]
pub enum SubscriptionCommand {
    Subscribe,
    Unsubscribe,
}

/// A price subscription; an omitted direction is inferred when it is applied.
#[derive(Debug, Clone, Copy, PartialEq, Eq, Structural)]
pub struct PriceSubscriptionSpec {
    pub coin: Coins,
    pub trigger_price: i64,
    pub direction: Option<ManualPriceDirection>,
}

/// A command with the subscription it applies to.
#[derive(Debug, Clone, Copy, PartialEq, Eq, Structural)]
pub struct SubscriptionManager {
    pub command: SubscriptionCommand,
    pub price: PriceSubscriptionSpec,
}

} // verus!

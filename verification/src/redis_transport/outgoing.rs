//! The message sent when a manual price alert fires.
use vstd::prelude::*;

use crate::price::key::ManualPriceDirection;
use crate::types::Coins;

verus! {

/// A fired manual price alert, prices in ticks; `kind` names the message type.
#[derive(Debug, Clone, Copy)]
pub struct OutgoingManualPriceAlert {
    pub kind: &'static str,
    pub coin: Coins,
    pub trigger_price: i64,
    pub direction: ManualPriceDirection,
    pub current_price: i64,
}

impl OutgoingManualPriceAlert {
    pub fn new(coin: Coins, trigger_price: i64, direction: ManualPriceDirection, current_price: i64) -> (r: OutgoingManualPriceAlert)
        ensures
            r.kind@ == "manual_price"@,
            r.coin == coin,
            r.trigger_price == trigger_price,
            r.direction == direction,
            r.current_price == current_price,
    {
        OutgoingManualPriceAlert { kind: "manual_price", coin, trigger_price, direction, current_price }
    }
}

} // verus!

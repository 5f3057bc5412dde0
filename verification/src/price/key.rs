//! Keys of price levels.
use vstd::prelude::*;

use crate::types::Coins;

verus! {

/// Which way the price has to cross a level for the alert to fire.
#[derive(Debug, Clone, Copy, PartialEq, Eq, Hash, Structural)]
pub enum ManualPriceDirection {
    Above,
    Below,
}

/// A price in ticks, used as an ordered key in the books.
#[derive(Debug, Clone, Copy, PartialEq, Eq, PartialOrd, Ord, Hash, Structural)]
pub struct PriceKey(pub i64);

/// Identifies one shared price level: coin, price and direction.
#[derive(Debug, Clone, Copy, PartialEq, Eq, Hash, Structural)]
pub struct LevelKey {
    pub coin: Coins,
    pub price_key: PriceKey,
    pub direction: ManualPriceDirection,
}

/// The key of a price in ticks: only positive prices make a key.
pub open spec fn key_of_ticks(ticks: i64) -> Option<PriceKey> {
    if ticks > 0 {
        Some(PriceKey(ticks))
    } else {
        None
    }
}

impl PriceKey {
    /// The key of a positive price given in ticks; `None` for a price that is
    /// zero or negative.
    pub fn from_ticks(ticks: i64) -> (r: Option<PriceKey>)
        ensures
            r == key_of_ticks(ticks),
    {
        if ticks <= 0 {
            None
        } else {
            Some(PriceKey(ticks))
        }
    }
}

impl LevelKey {
    pub fn new(coin: Coins, price_key: PriceKey, direction: ManualPriceDirection) -> (r: LevelKey)
        ensures
            r.coin == coin,
            r.price_key == price_key,
            r.direction == direction,
    {
        LevelKey { coin, price_key, direction }
    }
}

} // verus!

//! The events the engine can raise, wrapped in one alert type.
use vstd::prelude::*;

use crate::indicator_rules::IndicatorRuleId;
use crate::indicators::atr::{AtrBaseline, AtrRatio};
use crate::price::key::ManualPriceDirection;
use crate::types::{CandleKey, Coins};

verus! {

/// The kinds of events that can be raised.
#[derive(Debug, Clone, Copy, PartialEq, Eq, Structural)]
pub enum Event {
    /// A true range reached `spike_level` multiples of a breakout ratio
    /// against the ATR baseline `atr`; `ratio` is the range over the mean.
    AtrBreakout {
        indicator_rule_id: Option<IndicatorRuleId>,
        atr: AtrBaseline,
        live_tr: u64,
        ratio: AtrRatio,
        spike_level: u64,
        open_time_ms: u64,
    },
    /// A manual price alert at `trigger_price` was crossed in `direction`.
    ManualPriceTriggered {
        trigger_price: i64,
        direction: ManualPriceDirection,
        previous_price: i64,
        current_price: i64,
    },
}

/// An event with the coin, and the stream for indicator events.
#[derive(Debug, Clone, Copy, PartialEq, Eq, Structural)]
pub struct Alert {
    pub coin: Coins,
    pub key: Option<CandleKey>,
    pub event: Event,
}

impl Alert {
    /// An alert raised by an indicator on stream `key`.
    pub fn indicator(key: CandleKey, event: Event) -> (r: Alert)
        ensures
            r == (Alert { coin: key.coin, key: Some(key), event }),
    {
        Alert { coin: key.coin, key: Some(key), event }
    }

    /// An alert raised by a manual price alert of `coin`.
    pub fn manual_price(coin: Coins, event: Event) -> (r: Alert)
        ensures
            r == (Alert { coin, key: None, event }),
    {
        Alert { coin, key: None, event }
    }
}

} // verus!

//! User-facing manual price alerts and the alerts a crossing fires.
use vstd::prelude::*;

use crate::price::entry::PriceLevelEntry;
use crate::price::key::{key_of_ticks, LevelKey, ManualPriceDirection, PriceKey};
use crate::types::Coins;

verus! {

/// Key of an alert: the level it subscribes to.
pub type AlertKey = LevelKey;

/// Why a price-alert operation was refused.
#[derive(Debug, Clone, Copy, PartialEq, Eq, Structural)]
pub enum PriceAlertError {
    /// The trigger price is zero or negative, so it has no level.
    InvalidTriggerPrice,
    /// No level exists for the key.
    AlertNotFound,
}

impl PriceAlertError {
    /// The message of this error.
    pub fn to_string(&self) -> (r: String)
        ensures
            r@ == price_alert_error_message(*self),
    {
        match self {
            PriceAlertError::InvalidTriggerPrice => "invalid trigger price".to_string(),
            PriceAlertError::AlertNotFound => "alert not found".to_string(),
        }
    }
}

/// The message of a price-alert error.
pub open spec fn price_alert_error_message(e: PriceAlertError) -> Seq<char> {
    match e {
        PriceAlertError::InvalidTriggerPrice => "invalid trigger price"@,
        PriceAlertError::AlertNotFound => "alert not found"@,
    }
}

/// The rule a user sets: fire when `coin` crosses `trigger_price` (in ticks)
/// in `direction`.
#[derive(Debug, Clone, Copy, PartialEq, Eq, Structural)]
pub struct ManualPriceAlert {
    pub coin: Coins,
    pub trigger_price: i64,
    pub direction: ManualPriceDirection,
}

/// The level key an alert subscribes to, if its trigger price has one.
pub open spec fn alert_key_of(alert: ManualPriceAlert) -> Option<LevelKey> {
    match key_of_ticks(alert.trigger_price) {
        Some(k) => Some(LevelKey { coin: alert.coin, price_key: k, direction: alert.direction }),
        None => None,
    }
}

impl ManualPriceAlert {
    pub fn new(coin: Coins, trigger_p: i64, direction: ManualPriceDirection) -> (r: ManualPriceAlert)
        ensures
            r == (ManualPriceAlert { coin, trigger_price: trigger_p, direction }),
    {
        ManualPriceAlert { coin, trigger_price: trigger_p, direction }
    }

    /// The alert a stored level stands for.
    pub fn from_level(coin: Coins, direction: ManualPriceDirection, entry: &PriceLevelEntry) -> (r: ManualPriceAlert)
        ensures
            r == (ManualPriceAlert { coin, trigger_price: entry.trigger_price, direction }),
    {
        ManualPriceAlert { coin, trigger_price: entry.trigger_price, direction }
    }

    /// The level key of this alert; refused when the trigger price is not positive.
    pub fn alert_key(&self) -> (r: Result<LevelKey, PriceAlertError>)
        ensures
            match alert_key_of(*self) {
                Some(k) => r == Ok::<LevelKey, PriceAlertError>(k),
                None => r == Err::<LevelKey, PriceAlertError>(PriceAlertError::InvalidTriggerPrice),
            },
    {
        match PriceKey::from_ticks(self.trigger_price) {
            Some(price_key) => Ok(LevelKey::new(self.coin, price_key, self.direction)),
            None => Err(PriceAlertError::InvalidTriggerPrice),
        }
    }
}

/// An alert that fired: its level was crossed while the price moved to `current_price`.
#[derive(Debug, Clone, Copy, PartialEq, Eq, Structural)]
pub struct TriggeredPriceAlert {
    pub coin: Coins,
    pub trigger_price: i64,
    pub direction: ManualPriceDirection,
    pub current_price: i64,
}

} // verus!

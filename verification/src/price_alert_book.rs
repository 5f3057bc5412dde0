//! A simple alert book that keeps every alert at a level in insertion order.
use vstd::prelude::*;

use std::collections::BTreeMap;

use crate::price::key::{key_of_ticks, ManualPriceDirection, PriceKey};
use crate::types::Coins;

verus! {

/// An alert as this book keeps it, with an activity flag.
#[derive(Debug, Clone, Copy, PartialEq, Eq, Structural)]
pub struct ManualPriceAlert {
    pub coin: Coins,
    pub trigger_price: i64,
    pub direction: ManualPriceDirection,
    pub active: bool,
}

impl ManualPriceAlert {
    pub fn new(coin: Coins, trigger_p: i64, direction: ManualPriceDirection, active: bool) -> (r: ManualPriceAlert)
        ensures
            r == (ManualPriceAlert { coin, trigger_price: trigger_p, direction, active }),
    {
        ManualPriceAlert { coin, trigger_price: trigger_p, direction, active }
    }
}

/// A fired alert with the price that crossed it and when.
#[derive(Debug, Clone, Copy, PartialEq, Eq, Structural)]
pub struct ManualPriceAlertEvent {
    pub coin: Coins,
    pub trigger_price: i64,
    pub current_price: i64,
    pub direction: ManualPriceDirection,
    pub timestamp: u64,
}

/// Why an alert was not inserted.
#[derive(Debug, Clone, Copy, PartialEq, Eq, Structural)]
pub enum AlertBookError {
    /// The trigger price is zero or negative.
    InvalidTriggerPrice,
}

/// Upward and downward alerts, grouped by trigger price; the alerts at one
/// price are kept in the order they were inserted.
pub struct ManualPriceAlertBook {
    above_map: BTreeMap<i64, Vec<ManualPriceAlert>>,
    below_map: BTreeMap<i64, Vec<ManualPriceAlert>>,
}

impl ManualPriceAlertBook {
    /// The alerts of one direction, grouped by trigger price in ticks.
    pub closed spec fn alerts(self, direction: ManualPriceDirection) -> Map<i64, Seq<ManualPriceAlert>> {
        match direction {
            ManualPriceDirection::Above => self.above_map@.map_values(|v: Vec<ManualPriceAlert>| v@),
            ManualPriceDirection::Below => self.below_map@.map_values(|v: Vec<ManualPriceAlert>| v@),
        }
    }

    /// An empty book.
    pub fn new() -> (r: ManualPriceAlertBook)
        ensures
            forall|d: ManualPriceDirection| #[trigger] r.alerts(d) == Map::<i64, Seq<ManualPriceAlert>>::empty(),
    {
        let book = ManualPriceAlertBook { above_map: BTreeMap::new(), below_map: BTreeMap::new() };
        proof {
            assert(book.alerts(ManualPriceDirection::Above) =~= Map::<i64, Seq<ManualPriceAlert>>::empty());
            assert(book.alerts(ManualPriceDirection::Below) =~= Map::<i64, Seq<ManualPriceAlert>>::empty());
        }
        book
    }

    /// Appends `alert` to the alerts at its trigger price; refused when the
    /// trigger price is not positive.
    pub fn insert_alert(&mut self, alert: ManualPriceAlert) -> (r: Result<(), AlertBookError>)
        ensures
            match key_of_ticks(alert.trigger_price) {
                None => {
                    &&& r == Err::<(), AlertBookError>(AlertBookError::InvalidTriggerPrice)
                    &&& forall|d: ManualPriceDirection| #[trigger] final(self).alerts(d) == old(self).alerts(d)
                },
                Some(k) => {
                    &&& r == Ok::<(), AlertBookError>(())
                    &&& final(self).alerts(alert.direction) == old(self).alerts(alert.direction).insert(
                        k.0,
                        if old(self).alerts(alert.direction).contains_key(k.0) {
                            old(self).alerts(alert.direction)[k.0].push(alert)
                        } else {
                            seq![alert]
                        },
                    )
                    &&& forall|d: ManualPriceDirection| d != alert.direction ==> #[trigger] final(self).alerts(d) == old(self).alerts(d)
                },
            },
    {
        let p_key: PriceKey = match PriceKey::from_ticks(alert.trigger_price) {
            Some(k) => k,
            None => {
                return Err(AlertBookError::InvalidTriggerPrice);
            },
        };
        let map = match alert.direction {
            ManualPriceDirection::Above => &mut self.above_map,
            ManualPriceDirection::Below => &mut self.below_map,
        };
        let mut alerts = match map.remove(&p_key.0) {
            Some(v) => v,
            None => Vec::new(),
        };
        alerts.push(alert);
        map.insert(p_key.0, alerts);
        proof {
            let d = alert.direction;
            let expected = old(self).alerts(d).insert(
                p_key.0,
                if old(self).alerts(d).contains_key(p_key.0) {
                    old(self).alerts(d)[p_key.0].push(alert)
                } else {
                    seq![alert]
                },
            );
            assert(self.alerts(d) =~= expected);
        }
        Ok(())
    }
}

} // verus!

//! The price-alert service: subscribes alerts into the book and takes the
//! levels a price move crosses.
use vstd::prelude::*;

use crate::price::alert::{alert_key_of, AlertKey, ManualPriceAlert, PriceAlertError, TriggeredPriceAlert};
use crate::price::book::PriceBook;
use crate::price::ordered::{crossed, lists_crossed};
use crate::price::coin_book::{after_subscribe, after_unsubscribe, unsubscribe_result};
use crate::price::entry::PriceLevelEntry;
use crate::price::key::{ManualPriceDirection, PriceKey};
use crate::types::Coins;

verus! {

/// Every level's trigger price is the price it is keyed by.
pub open spec fn keyed_by_trigger(m: Map<i64, PriceLevelEntry>) -> bool {
    forall|k: i64| #[trigger] m.contains_key(k) ==> m[k].trigger_price == k
}

/// The direction of a move between two prices in ticks, when both are
/// valid (positive) prices and they differ.
pub open spec fn move_direction(previous: i64, current: i64) -> Option<ManualPriceDirection> {
    if previous <= 0 || current <= 0 {
        None
    } else if current > previous {
        Some(ManualPriceDirection::Above)
    } else if current < previous {
        Some(ManualPriceDirection::Below)
    } else {
        None
    }
}

/// `m` without the levels a move from `previous` to `current` crosses in `direction`.
pub open spec fn without_crossed(
    m: Map<i64, PriceLevelEntry>,
    direction: ManualPriceDirection,
    previous: i64,
    current: i64,
) -> Map<i64, PriceLevelEntry> {
    Map::new(|k: i64| m.contains_key(k) && !crossed(direction, previous, current, k), |k: i64| m[k])
}

/// `fired` holds, in increasing trigger-price order, one alert for each level
/// of `m` crossed by the move, stamped with the coin, direction and current price.
pub open spec fn fires(
    fired: Seq<TriggeredPriceAlert>,
    m: Map<i64, PriceLevelEntry>,
    coin: Coins,
    direction: ManualPriceDirection,
    previous: i64,
    current: i64,
) -> bool {
    &&& forall|i: int, j: int| 0 <= i < j < fired.len() ==> fired[i].trigger_price < fired[j].trigger_price
    &&& forall|i: int|
        0 <= i < fired.len() ==> {
            &&& #[trigger] fired[i] == TriggeredPriceAlert {
                coin,
                trigger_price: fired[i].trigger_price,
                direction,
                current_price: current,
            }
            &&& m.contains_key(fired[i].trigger_price)
            &&& crossed(direction, previous, current, fired[i].trigger_price)
        }
    &&& forall|k: i64|
        m.contains_key(k) && crossed(direction, previous, current, k) ==> exists|i: int|
            0 <= i < fired.len() && #[trigger] fired[i].trigger_price == k
}

/// `out` holds, in increasing trigger-price order, the alert of each level of
/// `m` crossed by a move from `previous` to `current` in `direction`.
pub open spec fn lists_crossed_manual(
    out: Seq<ManualPriceAlert>,
    m: Map<i64, PriceLevelEntry>,
    coin: Coins,
    direction: ManualPriceDirection,
    previous: i64,
    current: i64,
) -> bool {
    &&& forall|i: int, j: int| 0 <= i < j < out.len() ==> out[i].trigger_price < out[j].trigger_price
    &&& forall|i: int|
        0 <= i < out.len() ==> {
            &&& #[trigger] out[i] == ManualPriceAlert { coin, trigger_price: out[i].trigger_price, direction }
            &&& m.contains_key(out[i].trigger_price)
            &&& crossed(direction, previous, current, out[i].trigger_price)
        }
    &&& forall|k: i64|
        m.contains_key(k) && crossed(direction, previous, current, k) ==> exists|i: int|
            0 <= i < out.len() && #[trigger] out[i].trigger_price == k
}

/// A crossed level fires once: after a move has taken the levels it
/// crosses, the same move finds none of the levels left to fire.
pub proof fn lemma_crossing_fires_once(
    m: Map<i64, PriceLevelEntry>,
    fired: Seq<TriggeredPriceAlert>,
    coin: Coins,
    direction: ManualPriceDirection,
    previous: i64,
    current: i64,
)
    requires
        fires(fired, without_crossed(m, direction, previous, current), coin, direction, previous, current),
    ensures
        fired.len() == 0,
{
    if fired.len() > 0 {
        let k = fired[0].trigger_price;
        assert(without_crossed(m, direction, previous, current).contains_key(k));
        assert(crossed(direction, previous, current, k));
    }
}

/// A subscribed alert fires: when its level has just been subscribed and a
/// move in the alert's direction crosses its trigger price, the alerts the
/// move fires include it, stamped with the price the move reached.
pub proof fn lemma_subscribed_alert_fires(
    m: Map<i64, PriceLevelEntry>,
    alert: ManualPriceAlert,
    fired: Seq<TriggeredPriceAlert>,
    previous: i64,
    current: i64,
)
    requires
        alert_key_of(alert) is Some,
        crossed(alert.direction, previous, current, alert.trigger_price),
        fires(
            fired,
            after_subscribe(m, alert.trigger_price, PriceLevelEntry { trigger_price: alert.trigger_price, subscriber_count: 1 }),
            alert.coin,
            alert.direction,
            previous,
            current,
        ),
    ensures
        exists|i: int|
            0 <= i < fired.len() && #[trigger] fired[i] == (TriggeredPriceAlert {
                coin: alert.coin,
                trigger_price: alert.trigger_price,
                direction: alert.direction,
                current_price: current,
            }),
{
    let m1 = after_subscribe(m, alert.trigger_price, PriceLevelEntry { trigger_price: alert.trigger_price, subscriber_count: 1 });
    assert(m1.contains_key(alert.trigger_price));
    let i = choose|i: int| 0 <= i < fired.len() && #[trigger] fired[i].trigger_price == alert.trigger_price;
    assert(fired[i] == (TriggeredPriceAlert {
        coin: alert.coin,
        trigger_price: alert.trigger_price,
        direction: alert.direction,
        current_price: current,
    }));
}

/// Connects alerts with the book; owns the book so it stays private.
pub struct PriceAlertService {
    book: PriceBook,
}

impl PriceAlertService {
    /// The levels of one coin in one direction.
    pub closed spec fn levels(self, coin: Coins, direction: ManualPriceDirection) -> Map<i64, PriceLevelEntry> {
        self.book.levels(coin, direction)
    }

    /// The book is well formed and every level is keyed by its trigger price.
    pub closed spec fn inv(self) -> bool {
        &&& self.book.wf()
        &&& forall|c: Coins, d: ManualPriceDirection| keyed_by_trigger(#[trigger] self.book.levels(c, d))
    }

    /// Every level has at least one subscriber.
    pub proof fn lemma_levels_subscribed(self, coin: Coins, direction: ManualPriceDirection)
        requires
            self.inv(),
        ensures
            crate::price::coin_book::all_subscribed(self.levels(coin, direction)),
            keyed_by_trigger(self.levels(coin, direction)),
    {
        self.book.lemma_levels_subscribed(coin, direction);
    }

    /// The level `alert` subscribes to can take one more subscriber.
    pub open spec fn has_room_for(self, alert: ManualPriceAlert) -> bool {
        match alert_key_of(alert) {
            Some(k) => self.levels(k.coin, k.direction).contains_key(k.price_key.0) ==> self.levels(
                k.coin,
                k.direction,
            )[k.price_key.0].count() < usize::MAX,
            None => true,
        }
    }

    pub fn new() -> (r: PriceAlertService)
        ensures
            r.inv(),
            forall|c: Coins, d: ManualPriceDirection| #[trigger] r.levels(c, d) == Map::<i64, PriceLevelEntry>::empty(),
    {
        PriceAlertService { book: PriceBook::new() }
    }

    /// Subscribes an alert: one more subscriber on its level, the level being
    /// created when it is new. Refused when the trigger price is not positive.
    pub fn subscribe(&mut self, alert: ManualPriceAlert) -> (r: Result<AlertKey, PriceAlertError>)
        requires
            old(self).inv(),
            old(self).has_room_for(alert),
        ensures
            final(self).inv(),
            match alert_key_of(alert) {
                None => {
                    &&& r == Err::<AlertKey, PriceAlertError>(PriceAlertError::InvalidTriggerPrice)
                    &&& forall|c: Coins, d: ManualPriceDirection| #[trigger] final(self).levels(c, d) == old(self).levels(c, d)
                },
                Some(k) => {
                    &&& r == Ok::<AlertKey, PriceAlertError>(k)
                    &&& final(self).levels(k.coin, k.direction) == after_subscribe(
                        old(self).levels(k.coin, k.direction),
                        k.price_key.0,
                        PriceLevelEntry { trigger_price: alert.trigger_price, subscriber_count: 1 },
                    )
                    &&& forall|c: Coins, d: ManualPriceDirection|
                        (c != k.coin || d != k.direction) ==> #[trigger] final(self).levels(c, d) == old(self).levels(c, d)
                },
            },
    {
        let key = match alert.alert_key() {
            Ok(key) => key,
            Err(e) => {
                return Err(e);
            },
        };
        let entry = PriceLevelEntry::new(alert.trigger_price);
        self.book.insert(key.coin, key.price_key, key.direction, entry);
        proof {
            assert forall|c: Coins, d: ManualPriceDirection| keyed_by_trigger(#[trigger] self.book.levels(c, d)) by {
                assert(keyed_by_trigger(old(self).book.levels(c, d)));
            }
        }
        Ok(key)
    }

    /// Removes one subscriber from the level of `key`; returns the alert the
    /// level stands for, or `AlertNotFound` when there is no such level.
    pub fn unsubscribe(&mut self, key: AlertKey) -> (r: Result<ManualPriceAlert, PriceAlertError>)
        requires
            old(self).inv(),
        ensures
            final(self).inv(),
            final(self).levels(key.coin, key.direction) == after_unsubscribe(old(self).levels(key.coin, key.direction), key.price_key.0),
            forall|c: Coins, d: ManualPriceDirection|
                (c != key.coin || d != key.direction) ==> #[trigger] final(self).levels(c, d) == old(self).levels(c, d),
            r == (if old(self).levels(key.coin, key.direction).contains_key(key.price_key.0) {
                Ok::<ManualPriceAlert, PriceAlertError>(ManualPriceAlert {
                    coin: key.coin,
                    trigger_price: old(self).levels(key.coin, key.direction)[key.price_key.0].trigger_price,
                    direction: key.direction,
                })
            } else {
                Err::<ManualPriceAlert, PriceAlertError>(PriceAlertError::AlertNotFound)
            }),
    {
        let removed = self.book.remove(key.coin, key.price_key, key.direction);
        proof {
            assert forall|c: Coins, d: ManualPriceDirection| keyed_by_trigger(#[trigger] self.book.levels(c, d)) by {
                assert(keyed_by_trigger(old(self).book.levels(c, d)));
            }
        }
        match removed {
            Some(entry) => Ok(ManualPriceAlert::from_level(key.coin, key.direction, &entry)),
            None => Err(PriceAlertError::AlertNotFound),
        }
    }

    /// The alerts of `coin` whose levels a move from `previous_price` to
    /// `current_price` (ticks) crosses in `direction`, in increasing price
    /// order, without removing them; empty unless both prices are positive.
    fn crossed_in(&self, coin: Coins, direction: ManualPriceDirection, previous_price: i64, current_price: i64) -> (r: Vec<ManualPriceAlert>)
        requires
            self.inv(),
        ensures
            previous_price > 0 && current_price > 0 ==> lists_crossed_manual(
                r@,
                self.levels(coin, direction),
                coin,
                direction,
                previous_price,
                current_price,
            ),
            !(previous_price > 0 && current_price > 0) ==> r@.len() == 0,
    {
        if previous_price <= 0 || current_price <= 0 {
            return Vec::new();
        }
        let levels = match direction {
            ManualPriceDirection::Above => self.book.levels_crossed_above(coin, PriceKey(previous_price), PriceKey(current_price)),
            ManualPriceDirection::Below => self.book.levels_crossed_below(coin, PriceKey(previous_price), PriceKey(current_price)),
        };
        let ghost m = self.levels(coin, direction);
        proof {
            assert(keyed_by_trigger(self.book.levels(coin, direction)));
        }
        let mut out: Vec<ManualPriceAlert> = Vec::new();
        let mut i: usize = 0;
        while i < levels.len()
            invariant
                i <= levels@.len(),
                m == self.levels(coin, direction),
                keyed_by_trigger(m),
                lists_crossed(levels@, m, direction, previous_price, current_price),
                out@.len() == i,
                forall|j: int| 0 <= j < i ==> #[trigger] out@[j] == (ManualPriceAlert { coin, trigger_price: levels@[j].0.0, direction }),
            decreases levels@.len() - i,
        {
            let (price_key, entry) = levels[i];
            proof {
                assert(m.contains_key(levels@[i as int].0.0));
            }
            out.push(ManualPriceAlert::from_level(coin, direction, &entry));
            i += 1;
        }
        proof {
            assert forall|k: i64| m.contains_key(k) && crossed(direction, previous_price, current_price, k)
                implies exists|j: int| 0 <= j < out@.len() && #[trigger] out@[j].trigger_price == k by {
                let j = choose|j: int| 0 <= j < levels@.len() && #[trigger] levels@[j].0.0 == k;
                assert(out@[j].trigger_price == k);
            }
            assert forall|a: int, b: int| 0 <= a < b < out@.len() implies out@[a].trigger_price < out@[b].trigger_price by {
                assert(out@[a].trigger_price == levels@[a].0.0);
                assert(out@[b].trigger_price == levels@[b].0.0);
            }
            assert forall|a: int| 0 <= a < out@.len() implies {
                &&& #[trigger] out@[a] == ManualPriceAlert { coin, trigger_price: out@[a].trigger_price, direction }
                &&& m.contains_key(out@[a].trigger_price)
                &&& crossed(direction, previous_price, current_price, out@[a].trigger_price)
            } by {
                assert(out@[a].trigger_price == levels@[a].0.0);
            }
        }
        out
    }

    /// The alerts of `coin` whose upward levels a rise from `previous_price`
    /// to `current_price` crosses, without removing them.
    pub fn crossed_above(&self, coin: Coins, previous_price: i64, current_price: i64) -> (r: Vec<ManualPriceAlert>)
        requires
            self.inv(),
        ensures
            previous_price > 0 && current_price > 0 ==> lists_crossed_manual(
                r@,
                self.levels(coin, ManualPriceDirection::Above),
                coin,
                ManualPriceDirection::Above,
                previous_price,
                current_price,
            ),
            !(previous_price > 0 && current_price > 0) ==> r@.len() == 0,
    {
        self.crossed_in(coin, ManualPriceDirection::Above, previous_price, current_price)
    }

    /// The alerts of `coin` whose downward levels a fall from
    /// `previous_price` to `current_price` crosses, without removing them.
    pub fn crossed_below(&self, coin: Coins, previous_price: i64, current_price: i64) -> (r: Vec<ManualPriceAlert>)
        requires
            self.inv(),
        ensures
            previous_price > 0 && current_price > 0 ==> lists_crossed_manual(
                r@,
                self.levels(coin, ManualPriceDirection::Below),
                coin,
                ManualPriceDirection::Below,
                previous_price,
                current_price,
            ),
            !(previous_price > 0 && current_price > 0) ==> r@.len() == 0,
    {
        self.crossed_in(coin, ManualPriceDirection::Below, previous_price, current_price)
    }

    /// Returns the levels of `coin` that a move from `previous_price` to
    /// `current_price` (both in ticks) crosses, as fired alerts in increasing
    /// trigger-price order, and removes those levels from the book in the
    /// same operation. Nothing fires when the price did not move or either
    /// price is not positive.
    pub fn take_crossed(&mut self, coin: Coins, previous_price: i64, current_price: i64) -> (r: Vec<TriggeredPriceAlert>)
        requires
            old(self).inv(),
        ensures
            final(self).inv(),
            match move_direction(previous_price, current_price) {
                None => {
                    &&& r@.len() == 0
                    &&& forall|c: Coins, d: ManualPriceDirection| #[trigger] final(self).levels(c, d) == old(self).levels(c, d)
                },
                Some(dir) => {
                    &&& fires(r@, old(self).levels(coin, dir), coin, dir, previous_price, current_price)
                    &&& final(self).levels(coin, dir) == without_crossed(old(self).levels(coin, dir), dir, previous_price, current_price)
                    &&& forall|c: Coins, d: ManualPriceDirection|
                        (c != coin || d != dir) ==> #[trigger] final(self).levels(c, d) == old(self).levels(c, d)
                },
            },
    {
        if previous_price <= 0 || current_price <= 0 {
            return Vec::new();
        }
        let direction = if current_price > previous_price {
            ManualPriceDirection::Above
        } else if current_price < previous_price {
            ManualPriceDirection::Below
        } else {
            return Vec::new();
        };
        let previous_key = PriceKey(previous_price);
        let current_key = PriceKey(current_price);
        let crossed_levels = match direction {
            ManualPriceDirection::Above => self.book.levels_crossed_above(coin, previous_key, current_key),
            ManualPriceDirection::Below => self.book.levels_crossed_below(coin, previous_key, current_key),
        };
        let ghost m0 = old(self).levels(coin, direction);
        let ghost c0 = crossed_levels@;
        proof {
            assert(keyed_by_trigger(m0));
        }
        let mut fired: Vec<TriggeredPriceAlert> = Vec::new();
        let mut i: usize = 0;
        while i < crossed_levels.len()
            invariant
                i <= crossed_levels.len(),
                c0 == crossed_levels@,
                m0 == old(self).levels(coin, direction),
                keyed_by_trigger(m0),
                lists_crossed(c0, m0, direction, previous_price, current_price),
                self.book.wf(),
                forall|c: Coins, d: ManualPriceDirection|
                    (c != coin || d != direction) ==> #[trigger] self.book.levels(c, d) == old(self).levels(c, d),
                forall|k: i64|
                    #[trigger] self.book.levels(coin, direction).contains_key(k) <==> (m0.contains_key(k) && forall|j: int|
                        0 <= j < i ==> c0[j].0.0 != k),
                forall|k: i64| #[trigger] self.book.levels(coin, direction).contains_key(k) ==> self.book.levels(coin, direction)[k] == m0[k],
                fired@.len() == i,
                forall|j: int|
                    0 <= j < i ==> #[trigger] fired@[j] == (TriggeredPriceAlert {
                        coin,
                        trigger_price: c0[j].0.0,
                        direction,
                        current_price,
                    }),
            decreases crossed_levels.len() - i,
        {
            let (price_key, entry) = crossed_levels[i];
            proof {
                assert(m0.contains_key(c0[i as int].0.0));
                assert(entry.trigger_price == price_key.0);
            }
            self.book.delete_level(coin, price_key, direction);
            fired.push(TriggeredPriceAlert { coin, trigger_price: entry.trigger_price, direction, current_price });
            i += 1;
            proof {
                assert forall|k: i64|
                    #[trigger] self.book.levels(coin, direction).contains_key(k) <==> (m0.contains_key(k) && forall|j: int|
                        0 <= j < i ==> c0[j].0.0 != k) by {
                    if m0.contains_key(k) && (forall|j: int| 0 <= j < i - 1 ==> c0[j].0.0 != k) && k != c0[i - 1].0.0 {
                        assert forall|j: int| 0 <= j < i implies c0[j].0.0 != k by {
                            if j < i - 1 {
                            }
                        }
                    }
                }
            }
        }
        proof {
            let m1 = self.book.levels(coin, direction);
            let w = without_crossed(m0, direction, previous_price, current_price);
            assert forall|k: i64| m1.contains_key(k) <==> w.contains_key(k) by {
                if m0.contains_key(k) && crossed(direction, previous_price, current_price, k) {
                    let j = choose|j: int| 0 <= j < c0.len() && #[trigger] c0[j].0.0 == k;
                    assert(!(forall|jj: int| 0 <= jj < i ==> c0[jj].0.0 != k));
                }
                if m1.contains_key(k) {
                    assert(m0.contains_key(k));
                    if crossed(direction, previous_price, current_price, k) {
                        let j = choose|j: int| 0 <= j < c0.len() && #[trigger] c0[j].0.0 == k;
                        assert(c0[j].0.0 != k);
                    }
                }
                if w.contains_key(k) {
                    assert forall|j: int| 0 <= j < i implies c0[j].0.0 != k by {
                        assert(crossed(direction, previous_price, current_price, c0[j].0.0));
                    }
                }
            }
            assert(m1 =~= w);
            assert forall|c: Coins, d: ManualPriceDirection| keyed_by_trigger(#[trigger] self.book.levels(c, d)) by {
                assert(keyed_by_trigger(old(self).book.levels(c, d)));
            }
            assert forall|k: i64| m0.contains_key(k) && crossed(direction, previous_price, current_price, k)
                implies exists|j: int| 0 <= j < fired@.len() && #[trigger] fired@[j].trigger_price == k by {
                let j = choose|j: int| 0 <= j < c0.len() && #[trigger] c0[j].0.0 == k;
                assert(fired@[j].trigger_price == k);
            }
            assert forall|a: int, b: int| 0 <= a < b < fired@.len() implies fired@[a].trigger_price < fired@[b].trigger_price by {
                assert(fired@[a].trigger_price == c0[a].0.0);
                assert(fired@[b].trigger_price == c0[b].0.0);
            }
            assert forall|a: int| 0 <= a < fired@.len() implies {
                &&& #[trigger] fired@[a] == TriggeredPriceAlert {
                    coin,
                    trigger_price: fired@[a].trigger_price,
                    direction,
                    current_price,
                }
                &&& m0.contains_key(fired@[a].trigger_price)
                &&& crossed(direction, previous_price, current_price, fired@[a].trigger_price)
            } by {
                assert(fired@[a].trigger_price == c0[a].0.0);
            }
        }
        fired
    }
}

} // verus!

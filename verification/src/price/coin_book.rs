//! One coin's book: price levels split by direction, ordered by price.
use vstd::prelude::*;

use std::collections::BTreeMap;

use crate::price::entry::PriceLevelEntry;
use crate::price::key::{ManualPriceDirection, PriceKey};
use crate::price::ordered::{collect_all, collect_crossed, lemma_listed_len, lists_all, lists_crossed};

verus! {

/// Every level in `m` still has at least one subscriber.
pub open spec fn all_subscribed(m: Map<i64, PriceLevelEntry>) -> bool {
    forall|k: i64| #[trigger] m.contains_key(k) ==> m[k].count() >= 1
}

/// The levels after one more subscriber joins the level at `k`: the level
/// gains a subscriber if it exists and is created from `entry` otherwise.
pub open spec fn after_subscribe(m: Map<i64, PriceLevelEntry>, k: i64, entry: PriceLevelEntry) -> Map<i64, PriceLevelEntry> {
    m.insert(
        k,
        if m.contains_key(k) {
            PriceLevelEntry { trigger_price: m[k].trigger_price, subscriber_count: (m[k].subscriber_count + 1) as usize }
        } else {
            entry
        },
    )
}

/// The level at `k` with one subscriber fewer.
pub open spec fn one_fewer(m: Map<i64, PriceLevelEntry>, k: i64) -> PriceLevelEntry {
    PriceLevelEntry { trigger_price: m[k].trigger_price, subscriber_count: (m[k].subscriber_count - 1) as usize }
}

/// The levels after one subscriber leaves the level at `k`: the level goes
/// away with its last subscriber.
pub open spec fn after_unsubscribe(m: Map<i64, PriceLevelEntry>, k: i64) -> Map<i64, PriceLevelEntry> {
    if !m.contains_key(k) {
        m
    } else if m[k].count() == 1 {
        m.remove(k)
    } else {
        m.insert(k, one_fewer(m, k))
    }
}

/// What leaving the level at `k` reports: the level as it is left, or
/// `None` when there is no level.
pub open spec fn unsubscribe_result(m: Map<i64, PriceLevelEntry>, k: i64) -> Option<PriceLevelEntry> {
    if m.contains_key(k) {
        Some(one_fewer(m, k))
    } else {
        None
    }
}

/// The level at `k`, if any.
pub open spec fn level_at(m: Map<i64, PriceLevelEntry>, k: i64) -> Option<PriceLevelEntry> {
    if m.contains_key(k) {
        Some(m[k])
    } else {
        None
    }
}

/// Unsubscribing undoes subscribing: one subscriber joining the level at
/// `k` and then leaving it gives back the levels as they were.
pub proof fn lemma_unsubscribe_undoes_subscribe(m: Map<i64, PriceLevelEntry>, k: i64, entry: PriceLevelEntry)
    requires
        all_subscribed(m),
        entry.subscriber_count == 1,
        m.contains_key(k) ==> m[k].subscriber_count < usize::MAX,
    ensures
        after_unsubscribe(after_subscribe(m, k, entry), k) == m,
{
    let m1 = after_subscribe(m, k, entry);
    if m.contains_key(k) {
        assert(m1[k].count() >= 2);
        assert(one_fewer(m1, k) == m[k]);
        assert(after_unsubscribe(m1, k) =~= m);
    } else {
        assert(after_unsubscribe(m1, k) =~= m);
    }
}

/// A shared level stays until its last subscriber leaves: a subscriber
/// leaving a level of several takes one off its count and nothing else.
pub proof fn lemma_shared_level_stays(m: Map<i64, PriceLevelEntry>, k: i64)
    requires
        all_subscribed(m),
        m.contains_key(k),
        m[k].count() >= 2,
    ensures
        after_unsubscribe(m, k).contains_key(k),
        after_unsubscribe(m, k)[k].count() == m[k].count() - 1,
        after_unsubscribe(m, k)[k].trigger_price == m[k].trigger_price,
        all_subscribed(after_unsubscribe(m, k)),
{
}

/// A coin's price levels, split into the levels that fire on an upward
/// cross and those that fire on a downward cross, each ordered by price.
#[derive(Debug, Clone)]
pub struct CoinPriceBook {
    above_map: BTreeMap<i64, PriceLevelEntry>,
    below_map: BTreeMap<i64, PriceLevelEntry>,
}

impl CoinPriceBook {
    /// The levels of one direction, keyed by price in ticks.
    pub closed spec fn levels(self, direction: ManualPriceDirection) -> Map<i64, PriceLevelEntry> {
        match direction {
            ManualPriceDirection::Above => self.above_map@,
            ManualPriceDirection::Below => self.below_map@,
        }
    }

    /// Every stored level has at least one subscriber.
    pub open spec fn wf(self) -> bool {
        &&& all_subscribed(self.levels(ManualPriceDirection::Above))
        &&& all_subscribed(self.levels(ManualPriceDirection::Below))
    }

    /// An empty book.
    pub fn new() -> (r: CoinPriceBook)
        ensures
            r.wf(),
            r.levels(ManualPriceDirection::Above) == Map::<i64, PriceLevelEntry>::empty(),
            r.levels(ManualPriceDirection::Below) == Map::<i64, PriceLevelEntry>::empty(),
    {
        CoinPriceBook { above_map: BTreeMap::new(), below_map: BTreeMap::new() }
    }

    /// Adds a subscriber to the level at `price_key`, creating it from `entry`
    /// when it does not exist yet.
    pub fn insert_level(&mut self, price_key: PriceKey, direction: ManualPriceDirection, entry: PriceLevelEntry)
        requires
            old(self).wf(),
            entry.count() >= 1,
            old(self).levels(direction).contains_key(price_key.0) ==> old(self).levels(direction)[price_key.0].count() < usize::MAX,
        ensures
            final(self).wf(),
            final(self).levels(direction) == after_subscribe(old(self).levels(direction), price_key.0, entry),
            forall|d: ManualPriceDirection| d != direction ==> final(self).levels(d) == old(self).levels(d),
    {
        let map = match direction {
            ManualPriceDirection::Above => &mut self.above_map,
            ManualPriceDirection::Below => &mut self.below_map,
        };
        match map.remove(&price_key.0) {
            Some(mut existing) => {
                existing.add_subscriber();
                map.insert(price_key.0, existing);
            },
            None => {
                map.insert(price_key.0, entry);
            },
        }
    }

    /// The level at `price_key`, if any.
    pub fn get_level(&self, price_key: PriceKey, direction: ManualPriceDirection) -> (r: Option<&PriceLevelEntry>)
        ensures
            match r {
                Some(e) => self.levels(direction).contains_key(price_key.0) && *e == self.levels(direction)[price_key.0],
                None => !self.levels(direction).contains_key(price_key.0),
            },
    {
        match direction {
            ManualPriceDirection::Above => self.above_map.get(&price_key.0),
            ManualPriceDirection::Below => self.below_map.get(&price_key.0),
        }
    }

    /// Removes one subscriber from the level at `price_key`; the level goes
    /// away with its last subscriber. Returns the level as it is left (with a
    /// count of zero when it was removed), or `None` when there is no level.
    pub fn remove_level(&mut self, price_key: PriceKey, direction: ManualPriceDirection) -> (r: Option<PriceLevelEntry>)
        requires
            old(self).wf(),
        ensures
            final(self).wf(),
            forall|d: ManualPriceDirection| d != direction ==> final(self).levels(d) == old(self).levels(d),
            final(self).levels(direction) == after_unsubscribe(old(self).levels(direction), price_key.0),
            r == unsubscribe_result(old(self).levels(direction), price_key.0),
    {
        let map = match direction {
            ManualPriceDirection::Above => &mut self.above_map,
            ManualPriceDirection::Below => &mut self.below_map,
        };
        match map.remove(&price_key.0) {
            Some(mut entry) => {
                let none_left = entry.remove_subscriber();
                if !none_left {
                    map.insert(price_key.0, entry);
                }
                Some(entry)
            },
            None => None,
        }
    }

    /// Deletes the whole level at `price_key`, all its subscribers with it.
    pub fn delete_level(&mut self, price_key: PriceKey, direction: ManualPriceDirection) -> (r: Option<PriceLevelEntry>)
        requires
            old(self).wf(),
        ensures
            final(self).wf(),
            final(self).levels(direction) == old(self).levels(direction).remove(price_key.0),
            forall|d: ManualPriceDirection| d != direction ==> final(self).levels(d) == old(self).levels(d),
            r == level_at(old(self).levels(direction), price_key.0),
    {
        match direction {
            ManualPriceDirection::Above => self.above_map.remove(&price_key.0),
            ManualPriceDirection::Below => self.below_map.remove(&price_key.0),
        }
    }

    /// The upward levels crossed by a move from `previous_key` to
    /// `current_key`, that is those in `(previous_key, current_key]`, in
    /// increasing price order; empty unless the price rose.
    pub fn levels_crossed_above(&self, previous_key: PriceKey, current_key: PriceKey) -> (r: Vec<(PriceKey, PriceLevelEntry)>)
        ensures
            lists_crossed(r@, self.levels(ManualPriceDirection::Above), ManualPriceDirection::Above, previous_key.0, current_key.0),
            current_key.0 <= previous_key.0 ==> r@.len() == 0,
    {
        if current_key.0 <= previous_key.0 {
            return Vec::new();
        }
        collect_crossed(&self.above_map, ManualPriceDirection::Above, previous_key.0, current_key.0)
    }

    /// The downward levels crossed by a move from `previous_key` to
    /// `current_key`, that is those in `[current_key, previous_key)`, in
    /// increasing price order; empty unless the price fell.
    pub fn levels_crossed_below(&self, previous_key: PriceKey, current_key: PriceKey) -> (r: Vec<(PriceKey, PriceLevelEntry)>)
        ensures
            lists_crossed(r@, self.levels(ManualPriceDirection::Below), ManualPriceDirection::Below, previous_key.0, current_key.0),
            current_key.0 >= previous_key.0 ==> r@.len() == 0,
    {
        if current_key.0 >= previous_key.0 {
            return Vec::new();
        }
        collect_crossed(&self.below_map, ManualPriceDirection::Below, previous_key.0, current_key.0)
    }

    /// Every level of this coin: the upward ones in increasing price order,
    /// then the downward ones in increasing price order.
    pub fn active_levels(&self) -> (r: Vec<(ManualPriceDirection, PriceKey, PriceLevelEntry)>)
        ensures
            r@.len() == self.levels(ManualPriceDirection::Above).dom().len() + self.levels(ManualPriceDirection::Below).dom().len(),
            lists_all(
                r@.take(self.levels(ManualPriceDirection::Above).dom().len() as int).map_values(
                    |t: (ManualPriceDirection, PriceKey, PriceLevelEntry)| (t.1, t.2),
                ),
                self.levels(ManualPriceDirection::Above),
            ),
            lists_all(
                r@.skip(self.levels(ManualPriceDirection::Above).dom().len() as int).map_values(
                    |t: (ManualPriceDirection, PriceKey, PriceLevelEntry)| (t.1, t.2),
                ),
                self.levels(ManualPriceDirection::Below),
            ),
            forall|i: int|
                0 <= i < r@.len() ==> (#[trigger] r@[i]).0 == (if i < self.levels(ManualPriceDirection::Above).dom().len() {
                    ManualPriceDirection::Above
                } else {
                    ManualPriceDirection::Below
                }),
    {
        let above = collect_all(&self.above_map);
        let below = collect_all(&self.below_map);
        let mut out: Vec<(ManualPriceDirection, PriceKey, PriceLevelEntry)> = Vec::new();
        let mut i: usize = 0;
        while i < above.len()
            invariant
                i <= above.len(),
                out@.len() == i,
                forall|j: int| 0 <= j < i ==> #[trigger] out@[j] == (ManualPriceDirection::Above, above@[j].0, above@[j].1),
            decreases above.len() - i,
        {
            out.push((ManualPriceDirection::Above, above[i].0, above[i].1));
            i += 1;
        }
        let mut i: usize = 0;
        while i < below.len()
            invariant
                i <= below.len(),
                out@.len() == above.len() + i,
                forall|j: int| 0 <= j < above.len() ==> #[trigger] out@[j] == (ManualPriceDirection::Above, above@[j].0, above@[j].1),
                forall|j: int| 0 <= j < i ==> #[trigger] out@[above.len() + j] == (ManualPriceDirection::Below, below@[j].0, below@[j].1),
            decreases below.len() - i,
        {
            out.push((ManualPriceDirection::Below, below[i].0, below[i].1));
            i += 1;
        }
        proof {
            lemma_listed_len(above@, self.above_map@);
            lemma_listed_len(below@, self.below_map@);
            let na = above@.len() as int;
            assert(out@.take(na).map_values(|t: (ManualPriceDirection, PriceKey, PriceLevelEntry)| (t.1, t.2)) =~= above@);
            assert forall|j: int| 0 <= j < below@.len() implies out@.skip(na)[j] == (ManualPriceDirection::Below, below@[j].0, below@[j].1) by {
                assert(out@.skip(na)[j] == out@[na + j]);
            }
            assert(out@.skip(na).map_values(|t: (ManualPriceDirection, PriceKey, PriceLevelEntry)| (t.1, t.2)) =~= below@);
            assert forall|i: int| 0 <= i < out@.len() implies (#[trigger] out@[i]).0 == (if i < na {
                ManualPriceDirection::Above
            } else {
                ManualPriceDirection::Below
            }) by {
                if i >= na {
                    assert(out@[na + (i - na)] == (ManualPriceDirection::Below, below@[i - na].0, below@[i - na].1));
                }
            }
        }
        out
    }
}

impl Default for CoinPriceBook {
    fn default() -> (r: CoinPriceBook)
        ensures
            r.wf(),
            r.levels(ManualPriceDirection::Above) == Map::<i64, PriceLevelEntry>::empty(),
            r.levels(ManualPriceDirection::Below) == Map::<i64, PriceLevelEntry>::empty(),
    {
        CoinPriceBook::new()
    }
}

} // verus!

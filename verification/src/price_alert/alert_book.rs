//! Alert books: per coin, upward and downward maps ordered by trigger price,
//! each level holding one shared alert and the number of subscribers that
//! point at it, so several users share one rule instead of duplicating it.
use vstd::prelude::*;

use std::collections::{BTreeMap, HashMap};

use crate::price::alert::{alert_key_of, AlertKey, ManualPriceAlert, PriceAlertError};
use crate::price::key::{ManualPriceDirection, PriceKey};
use crate::price::ordered::{collect_crossed, crossed, lists_crossed};
use crate::types::{coin_code, Coins};

verus! {

/// Storage record for one shared alert rule.
#[derive(Debug, Clone, Copy)]
pub struct ManualPriceAlertEntry {
    alert: ManualPriceAlert,
    subscriber_count: usize,
}

impl View for ManualPriceAlertEntry {
    /// The alert and how many subscribers share it.
    type V = (ManualPriceAlert, nat);

    closed spec fn view(&self) -> (ManualPriceAlert, nat) {
        (self.alert, self.subscriber_count as nat)
    }
}

impl ManualPriceAlertEntry {
    /// A new entry for one shared alert with one subscriber.
    fn new(alert: ManualPriceAlert) -> (r: ManualPriceAlertEntry)
        ensures
            r@ == (alert, 1nat),
    {
        ManualPriceAlertEntry { alert, subscriber_count: 1 }
    }

    /// One more subscriber shares this rule.
    fn add_subscriber(&mut self)
        requires
            old(self)@.1 < usize::MAX,
        ensures
            final(self)@ == (old(self)@.0, old(self)@.1 + 1),
    {
        self.subscriber_count = self.subscriber_count + 1;
    }

    /// One subscriber leaves; returns whether none is left.
    fn remove_subscriber(&mut self) -> (r: bool)
        requires
            old(self)@.1 >= 1,
        ensures
            final(self)@ == (old(self)@.0, (old(self)@.1 - 1) as nat),
            r == (final(self)@.1 == 0),
    {
        self.subscriber_count = self.subscriber_count - 1;
        self.subscriber_count == 0
    }

    /// The alert definition stored in this entry.
    pub fn alert(&self) -> (r: &ManualPriceAlert)
        ensures
            *r == self@.0,
    {
        &self.alert
    }

    /// How many subscribers point at this rule.
    pub fn subscriber_count(&self) -> (r: usize)
        ensures
            r == self@.1,
    {
        self.subscriber_count
    }
}

/// The (alert, subscriber count) view of an entry map.
pub open spec fn entry_view(m: Map<i64, ManualPriceAlertEntry>) -> Map<i64, (ManualPriceAlert, nat)> {
    m.map_values(|e: ManualPriceAlertEntry| e@)
}

/// Every rule in `m` has at least one subscriber.
pub open spec fn all_shared(m: Map<i64, (ManualPriceAlert, nat)>) -> bool {
    forall|k: i64| #[trigger] m.contains_key(k) ==> m[k].1 >= 1
}

/// The rules after one more subscriber joins at `k`: the rule there gains a
/// subscriber, or `alert` is stored with one subscriber.
pub open spec fn after_join(m: Map<i64, (ManualPriceAlert, nat)>, k: i64, alert: ManualPriceAlert) -> Map<i64, (ManualPriceAlert, nat)> {
    m.insert(k, if m.contains_key(k) { (m[k].0, m[k].1 + 1) } else { (alert, 1nat) })
}

/// The rules after one subscriber leaves at `k`: the rule goes away with its
/// last subscriber.
pub open spec fn after_leave(m: Map<i64, (ManualPriceAlert, nat)>, k: i64) -> Map<i64, (ManualPriceAlert, nat)> {
    if !m.contains_key(k) {
        m
    } else if m[k].1 == 1 {
        m.remove(k)
    } else {
        m.insert(k, (m[k].0, (m[k].1 - 1) as nat))
    }
}

/// Leaving undoes joining: one subscriber joining the rule at `k` and then
/// leaving it gives back the rules as they were.
pub proof fn lemma_leave_undoes_join(m: Map<i64, (ManualPriceAlert, nat)>, k: i64, alert: ManualPriceAlert)
    requires
        all_shared(m),
    ensures
        after_leave(after_join(m, k, alert), k) == m,
{
    let m1 = after_join(m, k, alert);
    if m.contains_key(k) {
        assert(m1[k].1 >= 2);
        assert(after_leave(m1, k) =~= m);
    } else {
        assert(after_leave(m1, k) =~= m);
    }
}

/// A shared rule stays until its last subscriber leaves, with the alert it
/// was created for.
pub proof fn lemma_shared_rule_stays(m: Map<i64, (ManualPriceAlert, nat)>, k: i64)
    requires
        all_shared(m),
        m.contains_key(k),
        m[k].1 >= 2,
    ensures
        after_leave(m, k).contains_key(k),
        after_leave(m, k)[k] == (m[k].0, (m[k].1 - 1) as nat),
        all_shared(after_leave(m, k)),
{
}

/// The alert stored at `k`, if any.
pub open spec fn alert_at(m: Map<i64, (ManualPriceAlert, nat)>, k: i64) -> Option<ManualPriceAlert> {
    if m.contains_key(k) {
        Some(m[k].0)
    } else {
        None
    }
}

/// `out` is the alerts of the rules of `m` crossed by a move from `previous`
/// to `current` in `direction`, in increasing price order.
pub open spec fn lists_crossed_alerts(
    out: Seq<ManualPriceAlert>,
    m: Map<i64, (ManualPriceAlert, nat)>,
    direction: ManualPriceDirection,
    previous: i64,
    current: i64,
) -> bool {
    exists|ls: Seq<(PriceKey, (ManualPriceAlert, nat))>|
        lists_crossed(ls, m, direction, previous, current) && out == ls.map_values(
            |p: (PriceKey, (ManualPriceAlert, nat))| p.1.0,
        )
}

/// Per-coin alert storage: upward and downward maps ordered by trigger price.
#[derive(Debug, Clone)]
pub struct IndividualPriceAlertBook {
    above_map: BTreeMap<i64, ManualPriceAlertEntry>,
    below_map: BTreeMap<i64, ManualPriceAlertEntry>,
}

impl IndividualPriceAlertBook {
    /// The rules of one direction: alert and subscriber count, keyed by price in ticks.
    pub closed spec fn rules(self, direction: ManualPriceDirection) -> Map<i64, (ManualPriceAlert, nat)> {
        match direction {
            ManualPriceDirection::Above => entry_view(self.above_map@),
            ManualPriceDirection::Below => entry_view(self.below_map@),
        }
    }

    /// Every rule has at least one subscriber.
    pub open spec fn wf(self) -> bool {
        &&& all_shared(self.rules(ManualPriceDirection::Above))
        &&& all_shared(self.rules(ManualPriceDirection::Below))
    }

    /// An empty book.
    pub fn new() -> (r: IndividualPriceAlertBook)
        ensures
            r.wf(),
            forall|d: ManualPriceDirection| #[trigger] r.rules(d) == Map::<i64, (ManualPriceAlert, nat)>::empty(),
    {
        let r = IndividualPriceAlertBook { above_map: BTreeMap::new(), below_map: BTreeMap::new() };
        proof {
            assert(r.rules(ManualPriceDirection::Above) =~= Map::<i64, (ManualPriceAlert, nat)>::empty());
            assert(r.rules(ManualPriceDirection::Below) =~= Map::<i64, (ManualPriceAlert, nat)>::empty());
        }
        r
    }

    /// The alert at a price level and direction, if any.
    pub fn get(&self, price_key: PriceKey, direction: ManualPriceDirection) -> (r: Option<&ManualPriceAlert>)
        ensures
            r matches Some(a) ==> alert_at(self.rules(direction), price_key.0) == Some(*a),
            r is None ==> alert_at(self.rules(direction), price_key.0) is None,
    {
        match self.get_entry(price_key, direction) {
            Some(entry) => Some(entry.alert()),
            None => None,
        }
    }

    /// The whole entry at a price level and direction, if any.
    pub fn get_entry(&self, price_key: PriceKey, direction: ManualPriceDirection) -> (r: Option<&ManualPriceAlertEntry>)
        ensures
            match r {
                Some(e) => self.rules(direction).contains_key(price_key.0) && e@ == self.rules(direction)[price_key.0],
                None => !self.rules(direction).contains_key(price_key.0),
            },
    {
        match direction {
            ManualPriceDirection::Above => self.above_map.get(&price_key.0),
            ManualPriceDirection::Below => self.below_map.get(&price_key.0),
        }
    }

    /// Stores `alert` when the level is new; otherwise one more subscriber
    /// shares the rule already there.
    pub fn insert(&mut self, price_key: PriceKey, direction: ManualPriceDirection, alert: ManualPriceAlert)
        requires
            old(self).wf(),
            old(self).rules(direction).contains_key(price_key.0) ==> old(self).rules(direction)[price_key.0].1 < usize::MAX,
        ensures
            final(self).wf(),
            final(self).rules(direction) == after_join(old(self).rules(direction), price_key.0, alert),
            forall|d: ManualPriceDirection| d != direction ==> #[trigger] final(self).rules(d) == old(self).rules(d),
    {
        let map = match direction {
            ManualPriceDirection::Above => &mut self.above_map,
            ManualPriceDirection::Below => &mut self.below_map,
        };
        match map.remove(&price_key.0) {
            Some(mut entry) => {
                entry.add_subscriber();
                map.insert(price_key.0, entry);
            },
            None => {
                map.insert(price_key.0, ManualPriceAlertEntry::new(alert));
            },
        }
        proof {
            assert(self.rules(direction) =~= after_join(old(self).rules(direction), price_key.0, alert));
        }
    }

    /// Removes one subscriber; the shared rule is deleted only when nobody
    /// points to it anymore. Returns the rule's alert, or `None` when there
    /// is no rule at that level.
    pub fn remove(&mut self, price_key: PriceKey, direction: ManualPriceDirection) -> (r: Option<ManualPriceAlert>)
        requires
            old(self).wf(),
        ensures
            final(self).wf(),
            final(self).rules(direction) == after_leave(old(self).rules(direction), price_key.0),
            r == alert_at(old(self).rules(direction), price_key.0),
            forall|d: ManualPriceDirection| d != direction ==> #[trigger] final(self).rules(d) == old(self).rules(d),
    {
        let map = match direction {
            ManualPriceDirection::Above => &mut self.above_map,
            ManualPriceDirection::Below => &mut self.below_map,
        };
        let r = match map.remove(&price_key.0) {
            Some(mut entry) => {
                let none_left = entry.remove_subscriber();
                if !none_left {
                    map.insert(price_key.0, entry);
                }
                Some(entry.alert)
            },
            None => None,
        };
        proof {
            assert(self.rules(direction) =~= after_leave(old(self).rules(direction), price_key.0));
        }
        r
    }

    /// The alerts of the upward rules crossed by a rise from `previous_key`
    /// to `current_key`, in increasing price order.
    pub fn alerts_crossed_above(&self, previous_key: PriceKey, current_key: PriceKey) -> (r: Vec<ManualPriceAlert>)
        ensures
            lists_crossed_alerts(r@, self.rules(ManualPriceDirection::Above), ManualPriceDirection::Above, previous_key.0, current_key.0),
    {
        let entries = collect_crossed(&self.above_map, ManualPriceDirection::Above, previous_key.0, current_key.0);
        alerts_of(&entries, Ghost(self.above_map@), ManualPriceDirection::Above, previous_key.0, current_key.0)
    }

    /// The alerts of the downward rules crossed by a fall from `previous_key`
    /// to `current_key`, in increasing price order.
    pub fn alerts_crossed_below(&self, previous_key: PriceKey, current_key: PriceKey) -> (r: Vec<ManualPriceAlert>)
        ensures
            lists_crossed_alerts(r@, self.rules(ManualPriceDirection::Below), ManualPriceDirection::Below, previous_key.0, current_key.0),
    {
        let entries = collect_crossed(&self.below_map, ManualPriceDirection::Below, previous_key.0, current_key.0);
        alerts_of(&entries, Ghost(self.below_map@), ManualPriceDirection::Below, previous_key.0, current_key.0)
    }
}

/// The alerts of a listing of crossed entries.
fn alerts_of(
    entries: &Vec<(PriceKey, ManualPriceAlertEntry)>,
    Ghost(m): Ghost<Map<i64, ManualPriceAlertEntry>>,
    direction: ManualPriceDirection,
    previous: i64,
    current: i64,
) -> (r: Vec<ManualPriceAlert>)
    requires
        lists_crossed(entries@, m, direction, previous, current),
    ensures
        lists_crossed_alerts(r@, entry_view(m), direction, previous, current),
{
    let mut out: Vec<ManualPriceAlert> = Vec::new();
    let mut i: usize = 0;
    while i < entries.len()
        invariant
            i <= entries.len(),
            out@.len() == i,
            forall|j: int| 0 <= j < i ==> #[trigger] out@[j] == entries@[j].1@.0,
        decreases entries.len() - i,
    {
        out.push(entries[i].1.alert);
        i += 1;
    }
    proof {
        let ls = entries@.map_values(|p: (PriceKey, ManualPriceAlertEntry)| (p.0, p.1@));
        let v = entry_view(m);
        assert forall|k: i64| v.contains_key(k) && crossed(direction, previous, current, k) implies exists|i: int|
            0 <= i < ls.len() && #[trigger] ls[i].0.0 == k by {
            let i = choose|i: int| 0 <= i < entries@.len() && #[trigger] entries@[i].0.0 == k;
            assert(ls[i].0.0 == k);
        }
        assert forall|a: int| 0 <= a < ls.len() implies {
            &&& v.contains_key(#[trigger] ls[a].0.0)
            &&& v[ls[a].0.0] == ls[a].1
            &&& crossed(direction, previous, current, ls[a].0.0)
        } by {
            assert(ls[a] == (entries@[a].0, entries@[a].1@));
        }
        assert(lists_crossed(ls, v, direction, previous, current));
        assert(out@ =~= ls.map_values(|p: (PriceKey, (ManualPriceAlert, nat))| p.1.0));
    }
    out
}

/// Routes by coin; each individual book holds that coin's alerts.
pub struct AlertBook {
    books: HashMap<u8, IndividualPriceAlertBook>,
}

impl AlertBook {
    /// The rules of one coin in one direction; empty for a coin without a book.
    pub closed spec fn rules(self, coin: Coins, direction: ManualPriceDirection) -> Map<i64, (ManualPriceAlert, nat)> {
        if self.books@.contains_key(coin_code(coin)) {
            self.books@[coin_code(coin)].rules(direction)
        } else {
            Map::empty()
        }
    }

    /// Every coin book is well formed.
    pub closed spec fn wf(self) -> bool {
        forall|c: u8| #[trigger] self.books@.contains_key(c) ==> self.books@[c].wf()
    }

    /// The rule at `key` can take one more subscriber.
    pub open spec fn has_room_at(self, key: AlertKey) -> bool {
        self.rules(key.coin, key.direction).contains_key(key.price_key.0) ==> self.rules(key.coin, key.direction)[key.price_key.0].1 < usize::MAX
    }

    /// Every rule has at least one subscriber.
    pub proof fn lemma_rules_shared(self, coin: Coins, direction: ManualPriceDirection)
        requires
            self.wf(),
        ensures
            all_shared(self.rules(coin, direction)),
    {
        if self.books@.contains_key(coin_code(coin)) {
            assert(self.books@[coin_code(coin)].wf());
        }
    }

    /// An empty alert book.
    pub fn new() -> (r: AlertBook)
        ensures
            r.wf(),
            forall|c: Coins, d: ManualPriceDirection| #[trigger] r.rules(c, d) == Map::<i64, (ManualPriceAlert, nat)>::empty(),
    {
        AlertBook { books: HashMap::new() }
    }

    /// Inserts an alert, or adds a subscriber when its rule already exists.
    /// Refused when the trigger price is not positive.
    pub fn insert_alert(&mut self, alert: ManualPriceAlert) -> (r: Result<AlertKey, PriceAlertError>)
        requires
            old(self).wf(),
            alert_key_of(alert) matches Some(k) ==> old(self).has_room_at(k),
        ensures
            final(self).wf(),
            match alert_key_of(alert) {
                None => {
                    &&& r == Err::<AlertKey, PriceAlertError>(PriceAlertError::InvalidTriggerPrice)
                    &&& forall|c: Coins, d: ManualPriceDirection| #[trigger] final(self).rules(c, d) == old(self).rules(c, d)
                },
                Some(k) => {
                    &&& r == Ok::<AlertKey, PriceAlertError>(k)
                    &&& final(self).rules(k.coin, k.direction) == after_join(old(self).rules(k.coin, k.direction), k.price_key.0, alert)
                    &&& forall|c: Coins, d: ManualPriceDirection|
                        (c != k.coin || d != k.direction) ==> #[trigger] final(self).rules(c, d) == old(self).rules(c, d)
                },
            },
    {
        let key = match alert.alert_key() {
            Ok(key) => key,
            Err(e) => {
                return Err(e);
            },
        };
        let code = key.coin.code();
        let mut book = match self.books.remove(&code) {
            Some(b) => b,
            None => IndividualPriceAlertBook::new(),
        };
        book.insert(key.price_key, key.direction, alert);
        self.books.insert(code, book);
        proof {
            assert forall|c: Coins, d: ManualPriceDirection|
                (c != key.coin || d != key.direction) implies #[trigger] self.rules(c, d) == old(self).rules(c, d) by {
                if c != key.coin {
                    assert(coin_code(c) != coin_code(key.coin));
                }
            }
        }
        Ok(key)
    }

    /// Removes one subscriber; deletes the rule when nobody points to it.
    /// Returns the rule's alert, or `AlertNotFound`.
    pub fn delete_alert(&mut self, key: AlertKey) -> (r: Result<ManualPriceAlert, PriceAlertError>)
        requires
            old(self).wf(),
        ensures
            final(self).wf(),
            final(self).rules(key.coin, key.direction) == after_leave(old(self).rules(key.coin, key.direction), key.price_key.0),
            forall|c: Coins, d: ManualPriceDirection|
                (c != key.coin || d != key.direction) ==> #[trigger] final(self).rules(c, d) == old(self).rules(c, d),
            r == (match alert_at(old(self).rules(key.coin, key.direction), key.price_key.0) {
                Some(a) => Ok::<ManualPriceAlert, PriceAlertError>(a),
                None => Err::<ManualPriceAlert, PriceAlertError>(PriceAlertError::AlertNotFound),
            }),
    {
        let code = key.coin.code();
        match self.books.remove(&code) {
            Some(mut book) => {
                let removed = book.remove(key.price_key, key.direction);
                self.books.insert(code, book);
                proof {
                    assert forall|c: Coins, d: ManualPriceDirection|
                        (c != key.coin || d != key.direction) implies #[trigger] self.rules(c, d) == old(self).rules(c, d) by {
                        if c != key.coin {
                            assert(coin_code(c) != coin_code(key.coin));
                        }
                    }
                }
                match removed {
                    Some(a) => Ok(a),
                    None => Err(PriceAlertError::AlertNotFound),
                }
            },
            None => {
                proof {
                    assert(old(self).books@ == self.books@);
                }
                Err(PriceAlertError::AlertNotFound)
            },
        }
    }

    /// The alert for a key, if it exists.
    pub fn get_alert(&self, key: &AlertKey) -> (r: Option<&ManualPriceAlert>)
        ensures
            r matches Some(a) ==> alert_at(self.rules(key.coin, key.direction), key.price_key.0) == Some(*a),
            r is None ==> alert_at(self.rules(key.coin, key.direction), key.price_key.0) is None,
    {
        let code = key.coin.code();
        match self.books.get(&code) {
            Some(book) => book.get(key.price_key, key.direction),
            None => None,
        }
    }

    /// Whether a rule exists for this key.
    pub fn contains_key(&self, key: &AlertKey) -> (r: bool)
        ensures
            r == self.rules(key.coin, key.direction).contains_key(key.price_key.0),
    {
        self.get_alert(key).is_some()
    }

    /// How many subscribers share the rule of this key, if it exists.
    pub fn subscriber_count(&self, key: &AlertKey) -> (r: Option<usize>)
        ensures
            match r {
                Some(n) => self.rules(key.coin, key.direction).contains_key(key.price_key.0)
                    && n == self.rules(key.coin, key.direction)[key.price_key.0].1,
                None => !self.rules(key.coin, key.direction).contains_key(key.price_key.0),
            },
    {
        let code = key.coin.code();
        match self.books.get(&code) {
            Some(book) => match book.get_entry(key.price_key, key.direction) {
                Some(entry) => Some(entry.subscriber_count()),
                None => None,
            },
            None => None,
        }
    }

    /// The book of a coin, created empty when the coin has none.
    pub fn book_for_coin(&mut self, coin: Coins) -> (r: &mut IndividualPriceAlertBook)
        requires
            old(self).wf(),
        ensures
            r.wf(),
            forall|d: ManualPriceDirection| #[trigger] r.rules(d) == old(self).rules(coin, d),
            forall|c: Coins, d: ManualPriceDirection| c != coin ==> #[trigger] final(self).rules(c, d) == old(self).rules(c, d),
            forall|d: ManualPriceDirection| #[trigger] final(self).rules(coin, d) == final(r).rules(d),
            final(r).wf() ==> final(self).wf(),
    {
        let code = coin.code();
        self.books.entry(code).or_insert(IndividualPriceAlertBook::new())
    }

    /// The book of a coin, without creating it.
    pub fn book_for_coin_ref(&self, coin: Coins) -> (r: Option<&IndividualPriceAlertBook>)
        ensures
            match r {
                Some(b) => forall|d: ManualPriceDirection| #[trigger] b.rules(d) == self.rules(coin, d),
                None => forall|d: ManualPriceDirection| #[trigger] self.rules(coin, d) == Map::<i64, (ManualPriceAlert, nat)>::empty(),
            },
    {
        let code = coin.code();
        self.books.get(&code)
    }

    /// The alerts of `coin` whose upward rules a rise from `previous_price`
    /// to `current_price` (ticks) crosses, in increasing price order; empty
    /// unless both prices are positive and the price rose.
    pub fn alerts_crossed_above(&self, coin: Coins, previous_price: i64, current_price: i64) -> (r: Vec<ManualPriceAlert>)
        ensures
            previous_price > 0 && current_price > 0 ==> lists_crossed_alerts(
                r@,
                self.rules(coin, ManualPriceDirection::Above),
                ManualPriceDirection::Above,
                previous_price,
                current_price,
            ),
            !(previous_price > 0 && current_price > 0 && current_price > previous_price) ==> r@.len() == 0,
    {
        if previous_price <= 0 || current_price <= 0 || current_price <= previous_price {
            let r = Vec::new();
            proof {
                let ls = Seq::<(PriceKey, (ManualPriceAlert, nat))>::empty();
                assert(r@ =~= ls.map_values(|p: (PriceKey, (ManualPriceAlert, nat))| p.1.0));
                if previous_price > 0 && current_price > 0 {
                    assert(lists_crossed(ls, self.rules(coin, ManualPriceDirection::Above), ManualPriceDirection::Above, previous_price, current_price));
                }
            }
            return r;
        }
        let code = coin.code();
        match self.books.get(&code) {
            Some(book) => book.alerts_crossed_above(PriceKey(previous_price), PriceKey(current_price)),
            None => {
                let r = Vec::new();
                proof {
                    assert(self.rules(coin, ManualPriceDirection::Above) =~= Map::<i64, (ManualPriceAlert, nat)>::empty());
                    let ls = Seq::<(PriceKey, (ManualPriceAlert, nat))>::empty();
                    assert(r@ =~= ls.map_values(|p: (PriceKey, (ManualPriceAlert, nat))| p.1.0));
                    assert(lists_crossed(ls, self.rules(coin, ManualPriceDirection::Above), ManualPriceDirection::Above, previous_price, current_price));
                }
                r
            },
        }
    }

    /// The alerts of `coin` whose downward rules a fall from `previous_price`
    /// to `current_price` (ticks) crosses, in increasing price order; empty
    /// unless both prices are positive and the price fell.
    pub fn alerts_crossed_below(&self, coin: Coins, previous_price: i64, current_price: i64) -> (r: Vec<ManualPriceAlert>)
        ensures
            previous_price > 0 && current_price > 0 ==> lists_crossed_alerts(
                r@,
                self.rules(coin, ManualPriceDirection::Below),
                ManualPriceDirection::Below,
                previous_price,
                current_price,
            ),
            !(previous_price > 0 && current_price > 0 && current_price < previous_price) ==> r@.len() == 0,
    {
        if previous_price <= 0 || current_price <= 0 || current_price >= previous_price {
            let r = Vec::new();
            proof {
                let ls = Seq::<(PriceKey, (ManualPriceAlert, nat))>::empty();
                assert(r@ =~= ls.map_values(|p: (PriceKey, (ManualPriceAlert, nat))| p.1.0));
                if previous_price > 0 && current_price > 0 {
                    assert(lists_crossed(ls, self.rules(coin, ManualPriceDirection::Below), ManualPriceDirection::Below, previous_price, current_price));
                }
            }
            return r;
        }
        let code = coin.code();
        match self.books.get(&code) {
            Some(book) => book.alerts_crossed_below(PriceKey(previous_price), PriceKey(current_price)),
            None => {
                let r = Vec::new();
                proof {
                    assert(self.rules(coin, ManualPriceDirection::Below) =~= Map::<i64, (ManualPriceAlert, nat)>::empty());
                    let ls = Seq::<(PriceKey, (ManualPriceAlert, nat))>::empty();
                    assert(r@ =~= ls.map_values(|p: (PriceKey, (ManualPriceAlert, nat))| p.1.0));
                    assert(lists_crossed(ls, self.rules(coin, ManualPriceDirection::Below), ManualPriceDirection::Below, previous_price, current_price));
                }
                r
            },
        }
    }
}

} // verus!

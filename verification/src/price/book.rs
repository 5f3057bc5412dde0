//! The top-level price book: one coin book per coin.
use vstd::prelude::*;

use std::collections::HashMap;

use crate::price::ordered::lists_crossed;
use crate::price::coin_book::{
    after_subscribe, after_unsubscribe, level_at, unsubscribe_result, CoinPriceBook,
};
use crate::price::entry::PriceLevelEntry;
use crate::price::key::{ManualPriceDirection, PriceKey};
use crate::types::{coin_code, Coins};

verus! {

/// Holds, per coin, that coin's book of upward and downward levels.
pub struct PriceBook {
    by_coin: HashMap<u8, CoinPriceBook>,
}

impl PriceBook {
    /// The levels of one coin in one direction, keyed by price in ticks;
    /// empty for a coin that has no book yet.
    pub closed spec fn levels(self, coin: Coins, direction: ManualPriceDirection) -> Map<i64, PriceLevelEntry> {
        if self.by_coin@.contains_key(coin_code(coin)) {
            self.by_coin@[coin_code(coin)].levels(direction)
        } else {
            Map::empty()
        }
    }

    /// Every coin book is well formed.
    pub closed spec fn wf(self) -> bool {
        forall|c: u8| #[trigger] self.by_coin@.contains_key(c) ==> self.by_coin@[c].wf()
    }

    /// Every stored level has at least one subscriber.
    pub proof fn lemma_levels_subscribed(self, coin: Coins, direction: ManualPriceDirection)
        requires
            self.wf(),
        ensures
            crate::price::coin_book::all_subscribed(self.levels(coin, direction)),
    {
        if self.by_coin@.contains_key(coin_code(coin)) {
            assert(self.by_coin@[coin_code(coin)].wf());
        }
    }

    /// An empty book.
    pub fn new() -> (r: PriceBook)
        ensures
            r.wf(),
            forall|c: Coins, d: ManualPriceDirection| #[trigger] r.levels(c, d) == Map::<i64, PriceLevelEntry>::empty(),
    {
        PriceBook { by_coin: HashMap::new() }
    }

    /// Takes the book of `coin` out (an empty one if it has none).
    fn take_coin_book(&mut self, coin: Coins) -> (r: CoinPriceBook)
        requires
            old(self).wf(),
        ensures
            final(self).wf(),
            r.wf(),
            !final(self).by_coin@.contains_key(coin_code(coin)),
            final(self).by_coin@ == old(self).by_coin@.remove(coin_code(coin)),
            forall|d: ManualPriceDirection| #[trigger] r.levels(d) == old(self).levels(coin, d),
    {
        let code = coin.code();
        match self.by_coin.remove(&code) {
            Some(book) => book,
            None => CoinPriceBook::new(),
        }
    }

    /// Puts the book of `coin` back.
    fn put_coin_book(&mut self, coin: Coins, book: CoinPriceBook)
        requires
            old(self).wf(),
            book.wf(),
        ensures
            final(self).wf(),
            final(self).by_coin@ == old(self).by_coin@.insert(coin_code(coin), book),
    {
        let code = coin.code();
        self.by_coin.insert(code, book);
    }

    /// Adds a subscriber to a level, creating the level from `entry` when it
    /// does not exist yet.
    pub fn insert(&mut self, coin: Coins, price_key: PriceKey, direction: ManualPriceDirection, entry: PriceLevelEntry)
        requires
            old(self).wf(),
            entry.count() >= 1,
            old(self).levels(coin, direction).contains_key(price_key.0) ==> old(self).levels(coin, direction)[price_key.0].count() < usize::MAX,
        ensures
            final(self).wf(),
            final(self).levels(coin, direction) == after_subscribe(old(self).levels(coin, direction), price_key.0, entry),
            forall|c: Coins, d: ManualPriceDirection|
                (c != coin || d != direction) ==> #[trigger] final(self).levels(c, d) == old(self).levels(c, d),
    {
        let mut book = self.take_coin_book(coin);
        book.insert_level(price_key, direction, entry);
        self.put_coin_book(coin, book);
        proof {
            assert forall|c: Coins, d: ManualPriceDirection|
                (c != coin || d != direction) implies #[trigger] self.levels(c, d) == old(self).levels(c, d) by {
                if c != coin {
                    assert(coin_code(c) != coin_code(coin));
                }
            }
        }
    }

    /// Removes one subscriber from a level; the level goes away with its last
    /// subscriber. Returns the level as it is left, or `None` when there is
    /// no such level.
    pub fn remove(&mut self, coin: Coins, price_key: PriceKey, direction: ManualPriceDirection) -> (r: Option<PriceLevelEntry>)
        requires
            old(self).wf(),
        ensures
            final(self).wf(),
            final(self).levels(coin, direction) == after_unsubscribe(old(self).levels(coin, direction), price_key.0),
            r == unsubscribe_result(old(self).levels(coin, direction), price_key.0),
            forall|c: Coins, d: ManualPriceDirection|
                (c != coin || d != direction) ==> #[trigger] final(self).levels(c, d) == old(self).levels(c, d),
    {
        let mut book = self.take_coin_book(coin);
        let r = book.remove_level(price_key, direction);
        self.put_coin_book(coin, book);
        proof {
            assert forall|c: Coins, d: ManualPriceDirection|
                (c != coin || d != direction) implies #[trigger] self.levels(c, d) == old(self).levels(c, d) by {
                if c != coin {
                    assert(coin_code(c) != coin_code(coin));
                }
            }
        }
        r
    }

    /// Deletes a whole level, all its subscribers with it.
    pub fn delete_level(&mut self, coin: Coins, price_key: PriceKey, direction: ManualPriceDirection) -> (r: Option<PriceLevelEntry>)
        requires
            old(self).wf(),
        ensures
            final(self).wf(),
            final(self).levels(coin, direction) == old(self).levels(coin, direction).remove(price_key.0),
            r == level_at(old(self).levels(coin, direction), price_key.0),
            forall|c: Coins, d: ManualPriceDirection|
                (c != coin || d != direction) ==> #[trigger] final(self).levels(c, d) == old(self).levels(c, d),
    {
        let mut book = self.take_coin_book(coin);
        let r = book.delete_level(price_key, direction);
        self.put_coin_book(coin, book);
        proof {
            assert forall|c: Coins, d: ManualPriceDirection|
                (c != coin || d != direction) implies #[trigger] self.levels(c, d) == old(self).levels(c, d) by {
                if c != coin {
                    assert(coin_code(c) != coin_code(coin));
                }
            }
        }
        r
    }

    /// The level, if any.
    pub fn get(&self, coin: Coins, price_key: PriceKey, direction: ManualPriceDirection) -> (r: Option<&PriceLevelEntry>)
        ensures
            match r {
                Some(e) => self.levels(coin, direction).contains_key(price_key.0) && *e == self.levels(coin, direction)[price_key.0],
                None => !self.levels(coin, direction).contains_key(price_key.0),
            },
    {
        let code = coin.code();
        match self.by_coin.get(&code) {
            Some(book) => book.get_level(price_key, direction),
            None => None,
        }
    }

    /// Whether the level exists.
    pub fn contains(&self, coin: Coins, price_key: PriceKey, direction: ManualPriceDirection) -> (r: bool)
        ensures
            r == self.levels(coin, direction).contains_key(price_key.0),
    {
        self.get(coin, price_key, direction).is_some()
    }

    /// How many subscribers share the level, if it exists.
    pub fn subscriber_count(&self, coin: Coins, price_key: PriceKey, direction: ManualPriceDirection) -> (r: Option<usize>)
        ensures
            r == (if self.levels(coin, direction).contains_key(price_key.0) {
                Some(self.levels(coin, direction)[price_key.0].subscriber_count)
            } else {
                None::<usize>
            }),
    {
        match self.get(coin, price_key, direction) {
            Some(entry) => Some(entry.subscriber_count()),
            None => None,
        }
    }

    /// The upward levels of `coin` crossed by a move from `previous_key` to
    /// `current_key`, in increasing price order.
    pub fn levels_crossed_above(&self, coin: Coins, previous_key: PriceKey, current_key: PriceKey) -> (r: Vec<(PriceKey, PriceLevelEntry)>)
        ensures
            lists_crossed(r@, self.levels(coin, ManualPriceDirection::Above), ManualPriceDirection::Above, previous_key.0, current_key.0),
    {
        let code = coin.code();
        match self.by_coin.get(&code) {
            Some(book) => book.levels_crossed_above(previous_key, current_key),
            None => Vec::new(),
        }
    }

    /// The downward levels of `coin` crossed by a move from `previous_key` to
    /// `current_key`, in increasing price order.
    pub fn levels_crossed_below(&self, coin: Coins, previous_key: PriceKey, current_key: PriceKey) -> (r: Vec<(PriceKey, PriceLevelEntry)>)
        ensures
            lists_crossed(r@, self.levels(coin, ManualPriceDirection::Below), ManualPriceDirection::Below, previous_key.0, current_key.0),
    {
        let code = coin.code();
        match self.by_coin.get(&code) {
            Some(book) => book.levels_crossed_below(previous_key, current_key),
            None => Vec::new(),
        }
    }
}

} // verus!

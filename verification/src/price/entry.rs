//! One shared price level: its trigger price and how many subscribers share it.
use vstd::prelude::*;

verus! {

/// The data a price level holds: the trigger price and its subscriber count.
#[derive(Debug, Clone, Copy)]
pub struct PriceLevelEntry {
    pub trigger_price: i64,
    pub subscriber_count: usize,
}

impl PriceLevelEntry {
    /// Number of subscribers that share this level.
    pub open spec fn count(self) -> nat {
        self.subscriber_count as nat
    }

    /// A new level with one subscriber.
    pub fn new(trigger_price: i64) -> (r: PriceLevelEntry)
        ensures
            r.trigger_price == trigger_price,
            r.count() == 1,
    {
        PriceLevelEntry { trigger_price, subscriber_count: 1 }
    }

    /// One more subscriber shares this level.
    pub fn add_subscriber(&mut self)
        requires
            old(self).count() < usize::MAX,
        ensures
            final(self).trigger_price == old(self).trigger_price,
            final(self).count() == old(self).count() + 1,
    {
        self.subscriber_count = self.subscriber_count + 1;
    }

    /// One subscriber leaves; returns whether none is left.
    pub fn remove_subscriber(&mut self) -> (r: bool)
        requires
            old(self).count() >= 1,
        ensures
            final(self).trigger_price == old(self).trigger_price,
            final(self).count() == old(self).count() - 1,
            r == (final(self).count() == 0),
    {
        self.subscriber_count = self.subscriber_count - 1;
        self.subscriber_count == 0
    }

    pub fn subscriber_count(&self) -> (r: usize)
        ensures
            r == self.count(),
    {
        self.subscriber_count
    }
}

} // verus!

//! Read-only views of a candle stream handed to the evaluators.
use vstd::prelude::*;

use std::collections::VecDeque;

use crate::types::{Candle, CandleKey};

verus! {

/// One stream's closed candles, oldest first, and its forming (live) candle.
pub struct CandleView<'a> {
    pub key: &'a CandleKey,
    pub closed_candles: &'a VecDeque<Candle>,
    pub live_candle: &'a Candle,
}

/// The view of a stream as the market-data evaluators receive it.
pub type MarketView<'a> = CandleView<'a>;

/// The candles of a deque, oldest first, as a vector.
pub fn candles_of(closed: &VecDeque<Candle>) -> (r: Vec<Candle>)
    ensures
        r@ == closed@,
{
    let mut out: Vec<Candle> = Vec::new();
    let mut i: usize = 0;
    while i < closed.len()
        invariant
            i <= closed@.len(),
            out@ == closed@.take(i as int),
        decreases closed@.len() - i,
    {
        out.push(closed[i]);
        i += 1;
        proof {
            assert(out@ =~= closed@.take(i as int));
        }
    }
    proof {
        assert(closed@.take(closed@.len() as int) =~= closed@);
    }
    out
}

} // verus!

//! Market identifiers, candle keys, fixed-point candles and the numeric
//! constants shared by the alert books and the indicators.
use vstd::prelude::*;

verus! {

/// Number of price ticks in one unit of quote currency. Every price the
/// library handles is a fixed-point integer with this scale.
pub const PRICE_SCALE: i64 = 100_000_000;

/// Number of steps in one unit of a ratio (thresholds such as an ATR
/// breakout ratio are held in thousandths).
pub const RATIO_SCALE: u64 = 1000;

/// Largest price, in ticks, a candle may carry: 2^53 ticks, about 9×10^7
/// units, the range in which prices read from decimal numbers are exact.
/// It keeps the spike-level arithmetic (a true range times a candle count
/// times `RATIO_SCALE`) within a `u128`.
pub const MAX_PRICE_TICKS: u64 = 9_007_199_254_740_992;

/// Length of a five-minute candle in milliseconds.
pub const M5_INTERVAL_MS: u64 = 300_000;

/// Length of a fifteen-minute candle in milliseconds.
pub const M15_INTERVAL_MS: u64 = 900_000;

/// Length of a one-hour candle in milliseconds.
pub const H1_INTERVAL_MS: u64 = 3_600_000;

/// The coins the engine follows.
#[derive(Debug, Clone, Copy, PartialEq, Eq, Hash, Structural)]
pub enum Coins {
    HYPE,
    BTC,
    ETH,
}

/// Small integer code of a coin, used to key per-coin books.
pub open spec fn coin_code(coin: Coins) -> u8 {
    match coin {
        Coins::HYPE => 0u8,
        Coins::BTC => 1u8,
        Coins::ETH => 2u8,
    }
}

/// The coin whose ticker is `name`, if any.
pub open spec fn coin_named(name: Seq<char>) -> Option<Coins> {
    if name == "HYPE"@ {
        Some(Coins::HYPE)
    } else if name == "BTC"@ {
        Some(Coins::BTC)
    } else if name == "ETH"@ {
        Some(Coins::ETH)
    } else {
        None
    }
}

impl Coins {
    /// Integer code of this coin.
    pub fn code(&self) -> (r: u8)
        ensures
            r == coin_code(*self),
    {
        match self {
            Coins::HYPE => 0,
            Coins::BTC => 1,
            Coins::ETH => 2,
        }
    }

    /// Parses an upper-case ticker ("HYPE", "BTC", "ETH").
    pub fn from_name(value: &str) -> (r: Option<Coins>)
        ensures
            r == coin_named(value@),
    {
        proof {
            reveal_strlit("HYPE");
            reveal_strlit("BTC");
            reveal_strlit("ETH");
        }
        if crate::text::str_eq(value, "HYPE") {
            Some(Coins::HYPE)
        } else if crate::text::str_eq(value, "BTC") {
            Some(Coins::BTC)
        } else if crate::text::str_eq(value, "ETH") {
            Some(Coins::ETH)
        } else {
            None
        }
    }
}

/// Candle intervals.
#[derive(Debug, Clone, Copy, PartialEq, Eq, Hash, Structural)]
pub enum Interval {
    M5,
    M15,
    H1,
}

/// Small integer code of an interval.
pub open spec fn interval_code(interval: Interval) -> u8 {
    match interval {
        Interval::M5 => 0u8,
        Interval::M15 => 1u8,
        Interval::H1 => 2u8,
    }
}

/// Small integer code of a candle stream, used to key per-stream state.
pub open spec fn stream_code(key: CandleKey) -> u8 {
    (coin_code(key.coin) * 3 + interval_code(key.interval)) as u8
}

/// Different streams have different codes.
pub proof fn lemma_stream_code_injective(a: CandleKey, b: CandleKey)
    ensures
        stream_code(a) == stream_code(b) ==> a == b,
{
}

/// Length of an interval in milliseconds.
pub open spec fn interval_ms(interval: Interval) -> u64 {
    match interval {
        Interval::M5 => M5_INTERVAL_MS,
        Interval::M15 => M15_INTERVAL_MS,
        Interval::H1 => H1_INTERVAL_MS,
    }
}

/// The interval written as `name` on the wire ("5m", "15m", "1h"), if any.
pub open spec fn interval_named(name: Seq<char>) -> Option<Interval> {
    if name == "5m"@ {
        Some(Interval::M5)
    } else if name == "15m"@ {
        Some(Interval::M15)
    } else if name == "1h"@ {
        Some(Interval::H1)
    } else {
        None
    }
}

impl Interval {
    /// Length of the interval in milliseconds, so request windows can be
    /// computed from the interval itself.
    pub fn to_ms(&self) -> (r: u64)
        ensures
            r == interval_ms(*self),
    {
        match self {
            Interval::M5 => M5_INTERVAL_MS,
            Interval::M15 => M15_INTERVAL_MS,
            Interval::H1 => H1_INTERVAL_MS,
        }
    }

    /// Parses the wire name of an interval.
    pub fn from_name(value: &str) -> (r: Option<Interval>)
        ensures
            r == interval_named(value@),
    {
        proof {
            reveal_strlit("5m");
            reveal_strlit("15m");
            reveal_strlit("1h");
        }
        if crate::text::str_eq(value, "5m") {
            Some(Interval::M5)
        } else if crate::text::str_eq(value, "15m") {
            Some(Interval::M15)
        } else if crate::text::str_eq(value, "1h") {
            Some(Interval::H1)
        } else {
            None
        }
    }
}

/// Key of a candle stream: one coin at one interval.
#[derive(Debug, Clone, Copy, PartialEq, Eq, Hash, Structural)]
pub struct CandleKey {
    pub coin: Coins,
    pub interval: Interval,
}

impl CandleKey {
    pub fn new(coin: Coins, interval: Interval) -> (r: CandleKey)
        ensures
            r.coin == coin,
            r.interval == interval,
    {
        CandleKey { coin, interval }
    }

    /// Integer code of this stream.
    pub fn code(&self) -> (r: u8)
        ensures
            r == stream_code(*self),
    {
        let c: u8 = self.coin.code();
        let i: u8 = match self.interval {
            Interval::M5 => 0,
            Interval::M15 => 1,
            Interval::H1 => 2,
        };
        c * 3 + i
    }

    /// The key of the stream a candle belongs to.
    pub fn create_key_from_candle(candle: &Candle) -> (r: CandleKey)
        ensures
            r.coin == candle.coin,
            r.interval == candle.interval,
    {
        CandleKey::new(candle.coin, candle.interval)
    }
}

/// A candle with its prices and volume in ticks (see `PRICE_SCALE`).
#[derive(Debug, Clone, Copy, PartialEq, Eq, Structural)]
pub struct Candle {
    pub open_time_ms: u64,
    pub close_time_ms: u64,
    pub coin: Coins,
    pub interval: Interval,
    pub open_price: u64,
    pub close_price: u64,
    pub high_price: u64,
    pub low_price: u64,
    pub volume: u64,
    pub trade_count: u64,
}

impl Candle {
    /// The prices used by the true range lie within `MAX_PRICE_TICKS`.
    pub open spec fn prices_in_range(&self) -> bool {
        &&& self.close_price <= MAX_PRICE_TICKS
        &&& self.high_price <= MAX_PRICE_TICKS
        &&& self.low_price <= MAX_PRICE_TICKS
    }
}

} // verus!

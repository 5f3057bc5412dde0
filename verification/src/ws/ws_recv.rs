//! Messages received from the WebSocket feed, fields as the feed sends them.
use vstd::prelude::*;

verus! {

/// One price level of an order book side.
pub struct WsLevel {
    pub price: String,
    pub size: String,
}

/// An L2 order book snapshot: `levels[0]` are the bids, `levels[1]` the asks.
pub struct OrderBookL2 {
    pub coin: String,
    pub levels: [Vec<WsLevel>; 2],
    pub time_ms: u64,
}

/// A candle as the feed sends it, numbers still as text.
pub struct Candle {
    pub open_time_ms: u64,
    pub close_time_ms: u64,
    pub coin: String,
    pub interval: String,
    pub open_price: String,
    pub close_price: String,
    pub high_price: String,
    pub low_price: String,
    pub volume: String,
    pub trade_count: u64,
}

/// Side of a trade; `Unknown` for any other marker.
#[derive(Debug, Clone, Copy, PartialEq, Eq, Structural)]
pub enum TradeSide {
    Buy,
    Sell,
    Unknown,
}

/// A trade: `users` holds buyer and seller.
pub struct Trade {
    pub coin: String,
    pub side: TradeSide,
    pub px: String,
    pub sz: String,
    pub hash: String,
    pub time: u64,
    pub tid: u64,
    pub users: [String; 2],
}

/// A message of the feed, by channel.
pub enum WsMessageRecv {
    SubscriptionResponse(SubscriptionResponseData),
    L2Book(OrderBookL2),
    Candle(Candle),
    Trade(Vec<Trade>),
}

/// The confirmation of a subscription.
pub struct SubscriptionResponseData {
    pub method: String,
    pub subscription: SubscriptionResponseSubscription,
}

/// What a confirmation confirms; `interval` only for candles.
pub struct SubscriptionResponseSubscription {
    pub sub_type: String,
    pub coin: String,
    pub interval: Option<String>,
}

} // verus!

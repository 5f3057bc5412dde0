//! Subscription requests sent to the WebSocket feed.
use vstd::prelude::*;

use crate::text::{all_whitespace, trims_to_empty};

verus! {

/// Whether a request subscribes or unsubscribes.
#[derive(Debug, Clone, Copy, PartialEq, Eq, Structural)]
pub enum Method {
    SUBSCRIBE,
    UNSUBSCRIBE,
}

/// The feeds that can be subscribed.
#[derive(Debug, Clone, Copy, PartialEq, Eq, Structural)]
pub enum SubscriptionType {
    TRADES,
    CANDLE,
    L2BOOK,
    UNKNOWK,
}

/// Candle intervals of the feed.
#[derive(Debug, Clone, Copy, PartialEq, Eq, Structural)]
pub enum Intervals {
    FiveMinutes,
    FifteenMinutes,
    OneHour,
}

/// One feed of one coin; `interval` only for candles.
pub struct Subscription {
    sub_type: SubscriptionType,
    coin: String,
    interval: Option<Intervals>,
}

impl Subscription {
    pub closed spec fn spec_sub_type(&self) -> SubscriptionType {
        self.sub_type
    }

    pub closed spec fn spec_coin(&self) -> Seq<char> {
        self.coin@
    }

    pub closed spec fn spec_interval(&self) -> Option<Intervals> {
        self.interval
    }

    /// A subscription; refused when the coin is empty or only white space.
    pub fn new(sub_type: SubscriptionType, coin: String, interval: Option<Intervals>) -> (r: Result<Subscription, String>)
        ensures
            all_whitespace(coin@) ==> (r matches Err(e) && e@ == "coin cannot be empty"@),
            !all_whitespace(coin@) ==> (r matches Ok(s) && s.spec_sub_type() == sub_type
                && s.spec_coin() == coin@ && s.spec_interval() == interval),
    {
        if trims_to_empty(coin.as_str()) {
            let e = "coin cannot be empty".to_string();
            proof {
                reveal_strlit("coin cannot be empty");
            }
            return Err(e);
        }
        Ok(Subscription { sub_type, coin, interval })
    }

    pub fn sub_type(&self) -> (r: SubscriptionType)
        ensures
            r == self.spec_sub_type(),
    {
        self.sub_type
    }

    pub fn coin(&self) -> (r: &str)
        ensures
            r@ == self.spec_coin(),
    {
        self.coin.as_str()
    }

    pub fn interval(&self) -> (r: Option<Intervals>)
        ensures
            r == self.spec_interval(),
    {
        self.interval
    }
}

/// A request: the method and the subscription it applies to.
pub struct WsMessage {
    method: Method,
    subscription: Subscription,
}

impl WsMessage {
    pub fn new(method: Method, subscription: Subscription) -> (r: WsMessage)
        ensures
            r.spec_method() == method,
            r.spec_subscription() == subscription,
    {
        WsMessage { method, subscription }
    }

    pub closed spec fn spec_method(&self) -> Method {
        self.method
    }

    pub closed spec fn spec_subscription(&self) -> Subscription {
        self.subscription
    }

    pub fn method(&self) -> (r: Method)
        ensures
            r == self.spec_method(),
    {
        self.method
    }

    pub fn subscription(&self) -> (r: &Subscription)
        ensures
            *r == self.spec_subscription(),
    {
        &self.subscription
    }
}

} // verus!

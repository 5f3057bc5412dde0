//! The first form of the WebSocket subscription request: a method and a
//! subscription of one feed type for one coin.
use vstd::prelude::*;

use crate::text::{all_whitespace, trims_to_empty};

verus! {

/// Whether a request subscribes or unsubscribes.
#[derive(Debug, Clone, Copy, PartialEq, Eq, Structural)]
pub enum Method {
    SUBSCRIBE,
    UNSUBSCRIBE,
}

/// The feeds that can be subscribed.
#[derive(Debug, Clone, Copy, PartialEq, Eq, Structural)]
pub enum SubscriptionType {
    TRADES,
    CANDLE,
    L2BOOK,
}

/// One feed of one coin.
pub struct Subscription {
    sub_type: SubscriptionType,
    coin: String,
}

/// A subscription request.
pub struct WsSubscribe {
    method: Method,
    subscription: Subscription,
}

impl Subscription {
    pub closed spec fn spec_sub_type(&self) -> SubscriptionType {
        self.sub_type
    }

    pub closed spec fn spec_coin(&self) -> Seq<char> {
        self.coin@
    }

    /// A subscription; refused when the coin is empty or only white space.
    pub fn new(sub_type: SubscriptionType, coin: String) -> (r: Result<Subscription, String>)
        ensures
            all_whitespace(coin@) ==> (r matches Err(e) && e@ == "coin cannot be empty"@),
            !all_whitespace(coin@) ==> (r matches Ok(s) && s.spec_sub_type() == sub_type
                && s.spec_coin() == coin@),
    {
        if trims_to_empty(coin.as_str()) {
            return Err("coin cannot be empty".to_string());
        }
        Ok(Subscription { sub_type, coin })
    }
}

impl WsSubscribe {
    pub closed spec fn spec_method(&self) -> Method {
        self.method
    }

    pub closed spec fn spec_subscription(&self) -> Subscription {
        self.subscription
    }

    /// The request of `method` for `sub`; building it cannot fail.
    pub fn new(sub: Subscription, method: Method) -> (r: WsSubscribe)
        ensures
            r.spec_method() == method,
            r.spec_subscription() == sub,
    {
        WsSubscribe { subscription: sub, method }
    }
}

} // verus!

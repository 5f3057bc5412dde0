//! Turns crossed manual price alerts into alerts on every price update.
use vstd::prelude::*;

use crate::event::{Alert, Event};
use crate::price::alert::ManualPriceAlert;
use crate::price::key::ManualPriceDirection;
use crate::price::service::{lists_crossed_manual, PriceAlertService};
use crate::types::Coins;

verus! {

/// The alerts raised for crossed manual alerts `crossed` of `coin` on a move
/// from `previous_price` to `current_price`.
pub open spec fn manual_events(crossed: Seq<ManualPriceAlert>, coin: Coins, previous_price: i64, current_price: i64) -> Seq<Alert> {
    crossed.map_values(
        |a: ManualPriceAlert|
            Alert {
                coin,
                key: None,
                event: Event::ManualPriceTriggered {
                    trigger_price: a.trigger_price,
                    direction: a.direction,
                    previous_price,
                    current_price,
                },
            },
    )
}

/// Every alert raised for crossed manual alerts reports the coin and the
/// move it was raised on: the price before and the price after, as given.
pub proof fn lemma_manual_events_carry_move(crossed: Seq<ManualPriceAlert>, coin: Coins, previous_price: i64, current_price: i64)
    ensures
        manual_events(crossed, coin, previous_price, current_price).len() == crossed.len(),
        forall|i: int|
            0 <= i < crossed.len() ==> {
                let a = #[trigger] manual_events(crossed, coin, previous_price, current_price)[i];
                &&& a.coin == coin
                &&& a.key is None
                &&& a.event == (Event::ManualPriceTriggered {
                    trigger_price: crossed[i].trigger_price,
                    direction: crossed[i].direction,
                    previous_price,
                    current_price,
                })
            },
{
}

/// Checks the manual alerts of a coin on each price update.
pub struct PriceEvaluator;

impl PriceEvaluator {
    pub fn new() -> (r: PriceEvaluator)
        ensures
            r == PriceEvaluator,
    {
        PriceEvaluator
    }

    /// One alert per manual alert whose level the move from
    /// `previous_price` to `current_price` (ticks) crosses: upward crossings
    /// first, then downward ones, each in increasing trigger-price order.
    /// The service is only read.
    pub fn evaluate_price(&self, alert_service: &PriceAlertService, coin: Coins, previous_price: i64, current_price: i64) -> (r: Vec<Alert>)
        requires
            alert_service.inv(),
        ensures
            forall|i: int|
                0 <= i < r@.len() ==> {
                    &&& (#[trigger] r@[i]).coin == coin
                    &&& r@[i].key is None
                    &&& r@[i].event matches Event::ManualPriceTriggered { previous_price: p, current_price: c, .. }
                        && p == previous_price && c == current_price
                },
            exists|ups: Seq<ManualPriceAlert>, downs: Seq<ManualPriceAlert>|
                {
                    &&& (previous_price > 0 && current_price > 0 ==> lists_crossed_manual(
                        ups,
                        alert_service.levels(coin, ManualPriceDirection::Above),
                        coin,
                        ManualPriceDirection::Above,
                        previous_price,
                        current_price,
                    ))
                    &&& (previous_price > 0 && current_price > 0 ==> lists_crossed_manual(
                        downs,
                        alert_service.levels(coin, ManualPriceDirection::Below),
                        coin,
                        ManualPriceDirection::Below,
                        previous_price,
                        current_price,
                    ))
                    &&& (!(previous_price > 0 && current_price > 0) ==> ups.len() == 0 && downs.len() == 0)
                    &&& r@ == manual_events(ups, coin, previous_price, current_price) + manual_events(
                        downs,
                        coin,
                        previous_price,
                        current_price,
                    )
                },
    {
        let ups = alert_service.crossed_above(coin, previous_price, current_price);
        let downs = alert_service.crossed_below(coin, previous_price, current_price);
        let mut alerts: Vec<Alert> = Vec::new();
        let mut i: usize = 0;
        while i < ups.len()
            invariant
                i <= ups@.len(),
                alerts@ == manual_events(ups@.take(i as int), coin, previous_price, current_price),
            decreases ups@.len() - i,
        {
            let manual_alert = ups[i];
            alerts.push(
                Alert::manual_price(
                    coin,
                    Event::ManualPriceTriggered {
                        trigger_price: manual_alert.trigger_price,
                        direction: manual_alert.direction,
                        previous_price,
                        current_price,
                    },
                ),
            );
            i += 1;
            proof {
                assert(alerts@ =~= manual_events(ups@.take(i as int), coin, previous_price, current_price));
            }
        }
        let mut j: usize = 0;
        while j < downs.len()
            invariant
                j <= downs@.len(),
                alerts@ == manual_events(ups@, coin, previous_price, current_price) + manual_events(
                    downs@.take(j as int),
                    coin,
                    previous_price,
                    current_price,
                ),
            decreases downs@.len() - j,
        {
            proof {
                assert(ups@.take(ups@.len() as int) =~= ups@);
            }
            let manual_alert = downs[j];
            alerts.push(
                Alert::manual_price(
                    coin,
                    Event::ManualPriceTriggered {
                        trigger_price: manual_alert.trigger_price,
                        direction: manual_alert.direction,
                        previous_price,
                        current_price,
                    },
                ),
            );
            j += 1;
            proof {
                assert(alerts@ =~= manual_events(ups@, coin, previous_price, current_price) + manual_events(
                    downs@.take(j as int),
                    coin,
                    previous_price,
                    current_price,
                ));
            }
        }
        proof {
            assert(ups@.take(ups@.len() as int) =~= ups@);
            assert(downs@.take(downs@.len() as int) =~= downs@);
            lemma_manual_events_carry_move(ups@, coin, previous_price, current_price);
            lemma_manual_events_carry_move(downs@, coin, previous_price, current_price);
            assert(alerts@ =~= manual_events(ups@, coin, previous_price, current_price) + manual_events(
                downs@,
                coin,
                previous_price,
                current_price,
            ));
        }
        alerts
    }
}

} // verus!

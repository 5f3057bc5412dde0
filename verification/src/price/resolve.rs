//! Resolving the direction of a manual price alert from a reference price.
use vstd::prelude::*;

use crate::price::alert::ManualPriceAlert;
use crate::price::key::ManualPriceDirection;
use crate::types::Coins;

verus! {

/// Why no direction could be resolved.
#[derive(Debug, Clone, Copy, PartialEq, Eq, Structural)]
pub enum ResolveError {
    /// The reference price equals the trigger price.
    ReferenceEqualsTrigger { reference: i64, trigger: i64 },
    /// No direction was given and no reference price is known for the coin.
    NoReferencePrice { coin: Coins },
}

/// The direction an alert at `trigger` takes when the market is at
/// `reference`: above when the market is below the trigger, below when it is
/// above; none when they are equal.
pub open spec fn direction_from_reference(reference: i64, trigger: i64) -> Option<ManualPriceDirection> {
    if reference < trigger {
        Some(ManualPriceDirection::Above)
    } else if reference > trigger {
        Some(ManualPriceDirection::Below)
    } else {
        None
    }
}

/// Above if the market is below the trigger; Below if the market is above it.
pub fn resolve_price_direction(reference: i64, trigger: i64) -> (r: Result<ManualPriceDirection, ResolveError>)
    ensures
        match direction_from_reference(reference, trigger) {
            Some(d) => r == Ok::<ManualPriceDirection, ResolveError>(d),
            None => r == Err::<ManualPriceDirection, ResolveError>(ResolveError::ReferenceEqualsTrigger { reference, trigger }),
        },
{
    if reference < trigger {
        Ok(ManualPriceDirection::Above)
    } else if reference > trigger {
        Ok(ManualPriceDirection::Below)
    } else {
        Err(ResolveError::ReferenceEqualsTrigger { reference, trigger })
    }
}

/// Builds an alert; when `direction` is omitted it is resolved from
/// `reference_price`.
pub fn build_manual_price_alert(
    coin: Coins,
    trigger_price: i64,
    direction: Option<ManualPriceDirection>,
    reference_price: Option<i64>,
) -> (r: Result<ManualPriceAlert, ResolveError>)
    ensures
        match direction {
            Some(d) => r == Ok::<ManualPriceAlert, ResolveError>(ManualPriceAlert { coin, trigger_price, direction: d }),
            None => match reference_price {
                None => r == Err::<ManualPriceAlert, ResolveError>(ResolveError::NoReferencePrice { coin }),
                Some(reference) => match direction_from_reference(reference, trigger_price) {
                    Some(d) => r == Ok::<ManualPriceAlert, ResolveError>(ManualPriceAlert { coin, trigger_price, direction: d }),
                    None => r == Err::<ManualPriceAlert, ResolveError>(
                        ResolveError::ReferenceEqualsTrigger { reference, trigger: trigger_price },
                    ),
                },
            },
        },
{
    let direction = match direction {
        Some(d) => d,
        None => {
            let reference = match reference_price {
                Some(p) => p,
                None => {
                    return Err(ResolveError::NoReferencePrice { coin });
                },
            };
            match resolve_price_direction(reference, trigger_price) {
                Ok(d) => d,
                Err(e) => {
                    return Err(e);
                },
            }
        },
    };
    Ok(ManualPriceAlert::new(coin, trigger_price, direction))
}

} // verus!

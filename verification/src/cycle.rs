//! One timer tick's outcome: the two fetch pipelines run independently, and
//! a failure of either is reported beside — never instead of — the other's
//! result.

use vstd::prelude::*;

use crate::climate::VerisureData;
use crate::errors::Error;
use crate::price::TibberData;

verus! {

/// What one cycle hands the renderer: each pipeline's data where it
/// succeeded, and its error where it failed. No combination terminates the
/// surrounding loop.
#[derive(Debug)]
pub struct CycleOutcome {
    pub prices: Option<TibberData>,
    pub price_error: Option<Error>,
    pub climate: Option<VerisureData>,
    pub climate_error: Option<Error>,
}

/// Joins the two pipelines' results. Each side of the outcome depends on
/// its own pipeline alone, so a price failure cannot suppress a climate
/// result nor the other way round; `Ok(None)` means the source is not
/// configured, which is no error.
pub fn combine_cycle(
    price: Result<Option<TibberData>, Error>,
    climate: Result<Option<VerisureData>, Error>,
) -> (r: CycleOutcome)
    ensures
        price matches Ok(p) ==> (r.prices == p && r.price_error is None),
        price matches Err(e) ==> (r.prices is None && r.price_error == Some(e)),
        climate matches Ok(c) ==> (r.climate == c && r.climate_error is None),
        climate matches Err(e) ==> (r.climate is None && r.climate_error == Some(e)),
{
    let (prices, price_error) = match price {
        Ok(p) => (p, None),
        Err(e) => (None, Some(e)),
    };
    let (climate, climate_error) = match climate {
        Ok(c) => (c, None),
        Err(e) => (None, Some(e)),
    };
    CycleOutcome { prices, price_error, climate, climate_error }
}

} // verus!

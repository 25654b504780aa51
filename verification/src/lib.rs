//! Fetches hourly electricity spot prices and home climate readings from two
//! provider APIs, normalizes each into small typed structures, and classifies
//! prices into display buckets.
//!
//! Monetary amounts and temperatures are carried as integers in thousandths of
//! a unit (milli-units), so that range statistics and bucket thresholds are
//! exact.

pub mod bucket;
pub mod climate;
pub mod clock;
pub mod cycle;
pub mod errors;
pub mod price;
pub mod strorder;

use vstd::prelude::*;

verus! {

} // verus!

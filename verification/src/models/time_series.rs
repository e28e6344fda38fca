//! The return series of one factor.

use vstd::prelude::*;

verus! {

/// The returns of one factor, one entry for each date. Returns are kept as
/// numeric texts.
#[derive(Clone, Debug, PartialEq, Eq)]
pub struct FactorReturns {
    /// The name of the factor.
    pub factor: String,
    /// The dates, in order.
    pub dates: Vec<String>,
    /// The return of each date.
    pub returns: Vec<String>,
    /// The cumulative return up to each date.
    pub cumulative_returns: Vec<String>,
}

} // verus!

//! The settings of one run of a factor computation, and their validation.

use crate::data::calendar::{is_iso_date, iso_text_day};
use crate::error::{Error, ErrorView};
use crate::text::same_text;
use vstd::prelude::*;
use vstd::string::StringExecFns;

verus! {

/// The bit pattern of the binary64 value 0.1, the least breakpoint accepted.
pub const BREAKPOINT_MIN_BITS: u64 = 0x3FB9_9999_9999_999A;

/// The bit pattern of the binary64 value 0.5, the greatest breakpoint accepted
/// and the one used where none is given.
pub const BREAKPOINT_MAX_BITS: u64 = 0x3FE0_0000_0000_0000;

/// The least number of assets per period that is accepted.
pub const MIN_ASSETS_FLOOR: usize = 5;

/// The settings of one run.
#[derive(Clone, Debug, PartialEq, Eq)]
pub struct FactorConfig {
    /// The name of the factor.
    pub factor: String,
    /// The percentile breakpoint of the portfolio split, as the bit pattern of
    /// a binary64 value. Among the patterns of non-negative numbers a greater
    /// value has a greater pattern, and the patterns of negative numbers and
    /// of values that are no numbers lie above them all.
    pub breakpoint: u64,
    /// The least number of assets per period.
    pub min_assets: usize,
    /// The weighting method: `equal`, `market_cap` or `inverse_variance`.
    pub weighting_method: String,
    /// The first day, written as `YYYY-MM-DD`.
    pub start_date: String,
    /// The last day, written as `YYYY-MM-DD`.
    pub end_date: String,
    /// The least market capitalisation of an asset, if any.
    pub market_cap_threshold: Option<u64>,
    /// The least daily volume of an asset, if any.
    pub liquidity_threshold: Option<u64>,
    /// The least age of an asset in days, if any.
    pub min_lifetime_days: Option<u32>,
}

/// The breakpoint used where none is given: 0.5.
pub fn default_breakpoint() -> (bits: u64)
    ensures
        bits == BREAKPOINT_MAX_BITS,
{
    BREAKPOINT_MAX_BITS
}

/// The least number of assets used where none is given.
pub fn default_min_assets() -> (n: usize)
    ensures
        n == 30,
{
    30
}

/// The weighting method used where none is given.
pub fn default_weighting_method() -> (method: String)
    ensures
        method@ == "equal"@,
{
    String::from_str("equal")
}

/// The market capitalisation threshold used where none is given.
pub fn default_market_cap_threshold() -> (threshold: Option<u64>)
    ensures
        threshold == Some(100_000_000u64),
{
    Some(100_000_000)
}

/// The liquidity threshold used where none is given.
pub fn default_liquidity_threshold() -> (threshold: Option<u64>)
    ensures
        threshold == Some(35_000_000u64),
{
    Some(35_000_000)
}

/// The least age of an asset used where none is given.
pub fn default_min_lifetime_days() -> (days: Option<u32>)
    ensures
        days == Some(30u32),
{
    Some(30)
}

/// Whether a bit pattern stands for a value from 0.1 to 0.5.
pub open spec fn breakpoint_in_range(bits: u64) -> bool {
    BREAKPOINT_MIN_BITS <= bits <= BREAKPOINT_MAX_BITS
}

/// Whether a text names a weighting method.
pub open spec fn is_weighting_method(s: Seq<char>) -> bool {
    s == "equal"@ || s == "market_cap"@ || s == "inverse_variance"@
}

/// Whether a text is a calendar day written as `YYYY-MM-DD`.
pub open spec fn is_iso_day(s: Seq<char>) -> bool {
    iso_text_day(s) is Some
}

impl FactorConfig {
    /// What is wrong with the settings, if anything: the first of a
    /// breakpoint out of range, too few assets, an unknown weighting method,
    /// a bad start date and a bad end date.
    pub open spec fn first_fault(self) -> Option<ErrorView> {
        if !breakpoint_in_range(self.breakpoint) {
            Some(ErrorView::InvalidInput("breakpoint must be between 0.1 and 0.5"@))
        } else if self.min_assets < MIN_ASSETS_FLOOR {
            Some(ErrorView::InvalidInput("min_assets must be at least 5"@))
        } else if !is_weighting_method(self.weighting_method@) {
            Some(
                ErrorView::InvalidInput(
                    "Invalid weighting_method: "@ + self.weighting_method@
                        + ". Must be one of: equal, market_cap, inverse_variance"@,
                ),
            )
        } else if !is_iso_day(self.start_date@) {
            Some(ErrorView::DateParse("Invalid start_date"@))
        } else if !is_iso_day(self.end_date@) {
            Some(ErrorView::DateParse("Invalid end_date"@))
        } else {
            None
        }
    }

    /// Checks the settings and reports the first fault.
    pub fn validate(&self) -> (r: Result<(), Error>)
        ensures
            match r {
                Ok(_) => self.first_fault() is None,
                Err(e) => self.first_fault() == Some(e@),
            },
    {
        if self.breakpoint < BREAKPOINT_MIN_BITS || self.breakpoint > BREAKPOINT_MAX_BITS {
            return Err(
                Error::InvalidInput(String::from_str("breakpoint must be between 0.1 and 0.5")),
            );
        }
        if self.min_assets < MIN_ASSETS_FLOOR {
            return Err(Error::InvalidInput(String::from_str("min_assets must be at least 5")));
        }
        let method = self.weighting_method.as_str();
        if !same_text(method, "equal") && !same_text(method, "market_cap") && !same_text(
            method,
            "inverse_variance",
        ) {
            let message = String::from_str("Invalid weighting_method: ").concat(method).concat(
                ". Must be one of: equal, market_cap, inverse_variance",
            );
            return Err(Error::InvalidInput(message));
        }
        if !is_iso_date(self.start_date.as_str()) {
            return Err(Error::DateParse(String::from_str("Invalid start_date")));
        }
        if !is_iso_date(self.end_date.as_str()) {
            return Err(Error::DateParse(String::from_str("Invalid end_date")));
        }
        Ok(())
    }
}

} // verus!

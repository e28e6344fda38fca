//! The summary of one run of a factor computation.

use crate::text::is_numeric;
use vstd::prelude::*;

verus! {

/// One run: its identity, the settings it ran with, and what it found.
/// Every statistic is optional and, where present, kept as a numeric text.
#[derive(Clone, Debug, PartialEq, Eq)]
pub struct FactorPerformance {
    /// The identifier of the run.
    pub run_id: String,
    /// The name of the factor.
    pub factor: String,
    /// The percentile breakpoint of the portfolio split.
    pub breakpoint: Option<String>,
    /// The least number of assets per period.
    pub min_assets: Option<usize>,
    /// The weighting method.
    pub weighting_method: Option<String>,
    /// The cumulative return.
    pub cumulative_returns: Option<String>,
    /// The annualized return.
    pub annualized_return: Option<String>,
    /// The length of the run in years.
    pub years: Option<String>,
    /// The Sharpe ratio.
    pub sharpe_ratio: Option<String>,
    /// The Sortino ratio.
    pub sortino_ratio: Option<String>,
    /// The return of the long side alone.
    pub long_only_returns: Option<String>,
    /// The return of the short side alone.
    pub short_only_returns: Option<String>,
    /// The first date used.
    pub start_date: Option<String>,
    /// The last date used.
    pub end_date: Option<String>,
}

/// A run as plain values.
pub struct RunView {
    pub run_id: Seq<char>,
    pub factor: Seq<char>,
    pub breakpoint: Option<Seq<char>>,
    pub min_assets: Option<nat>,
    pub weighting_method: Option<Seq<char>>,
    pub cumulative_returns: Option<Seq<char>>,
    pub annualized_return: Option<Seq<char>>,
    pub years: Option<Seq<char>>,
    pub sharpe_ratio: Option<Seq<char>>,
    pub sortino_ratio: Option<Seq<char>>,
    pub long_only_returns: Option<Seq<char>>,
    pub short_only_returns: Option<Seq<char>>,
    pub start_date: Option<Seq<char>>,
    pub end_date: Option<Seq<char>>,
}

/// The text of an optional string.
pub open spec fn opt_text(o: Option<String>) -> Option<Seq<char>> {
    match o {
        Some(s) => Some(s@),
        None => None,
    }
}

/// The text of an optional borrowed string.
pub open spec fn opt_ref_text(o: Option<&String>) -> Option<Seq<char>> {
    match o {
        Some(s) => Some(s@),
        None => None,
    }
}

/// The text of an optional string slice.
pub open spec fn opt_slice(o: Option<&str>) -> Option<Seq<char>> {
    match o {
        Some(s) => Some(s@),
        None => None,
    }
}

/// The number in an optional count.
pub open spec fn opt_count(o: Option<usize>) -> Option<nat> {
    match o {
        Some(n) => Some(n as nat),
        None => None,
    }
}

/// Whether an optional statistic, where present, is a numeric text.
pub open spec fn numeric_or_absent(o: Option<Seq<char>>) -> bool {
    o matches Some(t) ==> is_numeric(t)
}

/// Whether an optional text, where present, is not empty.
pub open spec fn filled_or_absent(o: Option<Seq<char>>) -> bool {
    o matches Some(t) ==> t.len() > 0
}

impl RunView {
    /// Whether the run can be stored and read back unchanged: every statistic
    /// that is present is a numeric text, the count fits the machine, and
    /// every other optional text that is present is not empty.
    pub open spec fn wf(self) -> bool {
        &&& numeric_or_absent(self.breakpoint)
        &&& (self.min_assets matches Some(n) ==> n <= usize::MAX)
        &&& filled_or_absent(self.weighting_method)
        &&& numeric_or_absent(self.cumulative_returns)
        &&& numeric_or_absent(self.annualized_return)
        &&& numeric_or_absent(self.years)
        &&& numeric_or_absent(self.sharpe_ratio)
        &&& numeric_or_absent(self.sortino_ratio)
        &&& numeric_or_absent(self.long_only_returns)
        &&& numeric_or_absent(self.short_only_returns)
        &&& filled_or_absent(self.start_date)
        &&& filled_or_absent(self.end_date)
    }
}

impl View for FactorPerformance {
    type V = RunView;

    open spec fn view(&self) -> RunView {
        RunView {
            run_id: self.run_id@,
            factor: self.factor@,
            breakpoint: opt_text(self.breakpoint),
            min_assets: opt_count(self.min_assets),
            weighting_method: opt_text(self.weighting_method),
            cumulative_returns: opt_text(self.cumulative_returns),
            annualized_return: opt_text(self.annualized_return),
            years: opt_text(self.years),
            sharpe_ratio: opt_text(self.sharpe_ratio),
            sortino_ratio: opt_text(self.sortino_ratio),
            long_only_returns: opt_text(self.long_only_returns),
            short_only_returns: opt_text(self.short_only_returns),
            start_date: opt_text(self.start_date),
            end_date: opt_text(self.end_date),
        }
    }
}

} // verus!

//! Queries over the run logs: which factors exist, which runs to show, and
//! which part of a return series a date range selects.

use crate::error::{Error, ErrorView};
use crate::models::performance::{opt_slice, FactorPerformance};
use crate::models::time_series::FactorReturns;
use crate::text::{
    lemma_text_after_chain, lemma_text_not_before_chain, listed_names, same_text, split_names,
    text_before, text_lt, texts,
};
use vstd::prelude::*;
use vstd::string::StringExecFns;

verus! {

/// The names of the factors that the service knows, in order.
pub open spec fn factor_names() -> Seq<Seq<char>> {
    seq!["smb"@, "market"@, "value"@, "momentum"@, "momentum_v2"@, "growth"@]
}

/// The names of the factors that the service knows.
pub fn available_factors() -> (names: Vec<&'static str>)
    ensures
        names@.len() == factor_names().len(),
        forall|i: int| 0 <= i < names@.len() ==> (#[trigger] names@[i])@ == factor_names()[i],
{
    let names: Vec<&'static str> = vec!["smb", "market", "value", "momentum", "momentum_v2", "growth"];
    assert(names@.len() == 6);
    names
}

/// Whether the service knows a factor of that name.
pub fn is_available_factor(name: &str) -> (r: bool)
    ensures
        r == factor_names().contains(name@),
{
    let names = available_factors();
    let mut i: usize = 0;
    while i < names.len()
        invariant
            i <= names@.len(),
            names@.len() == factor_names().len(),
            forall|k: int| 0 <= k < names@.len() ==> (#[trigger] names@[k])@ == factor_names()[k],
            forall|k: int| 0 <= k < i ==> factor_names()[k] != name@,
        decreases names@.len() - i,
    {
        if same_text(names[i], name) {
            assert(factor_names()[i as int] == name@);
            return true;
        }
        i += 1;
    }
    false
}

/// How many runs a listing shows at most where the query does not say.
pub fn default_limit() -> (n: usize)
    ensures
        n == 10,
{
    10
}

/// Whether cumulative returns are rescaled where the query does not say.
pub fn default_true() -> (b: bool)
    ensures
        b,
{
    true
}

/// The query of a listing of runs.
#[derive(Debug, Clone, PartialEq, Eq)]
pub struct FactorLogsQuery {
    /// The most runs to show.
    pub limit: usize,
}

/// The query of return series.
#[derive(Debug, Clone, PartialEq, Eq)]
pub struct TimeSeriesQuery {
    /// The names of the factors, separated by commas; every factor where absent.
    pub factors: Option<String>,
    /// The first date to show, if any.
    pub start_date: Option<String>,
    /// The last date to show, if any.
    pub end_date: Option<String>,
    /// Whether cumulative returns are rescaled to start from 100.
    pub normalize_to_100: bool,
}

/// What is reported for a factor that the service does not know.
pub open spec fn unknown_factor(name: Seq<char>) -> ErrorView {
    ErrorView::NotFound("Factor '"@ + name + "' not found"@)
}

/// What is reported for a factor without a run.
pub open spec fn no_logs(name: Seq<char>) -> ErrorView {
    ErrorView::NotFound("No logs found for factor: "@ + name)
}

/// Accepts the name of a factor that the service knows.
pub fn check_factor(factor: &str) -> (r: Result<(), Error>)
    ensures
        match r {
            Ok(_) => factor_names().contains(factor@),
            Err(e) => !factor_names().contains(factor@) && e@ == unknown_factor(factor@),
        },
{
    if is_available_factor(factor) {
        Ok(())
    } else {
        Err(
            Error::NotFound(
                String::from_str("Factor '").concat(factor).concat("' not found"),
            ),
        )
    }
}

/// Where the last `limit` of `n` runs begin.
pub open spec fn tail_start(n: int, limit: int) -> int {
    if n > limit {
        n - limit
    } else {
        0
    }
}

/// The last `limit` runs of a log, in order; all of them where there are no
/// more than `limit`.
pub fn last_logs(logs: Vec<FactorPerformance>, limit: usize) -> (shown: Vec<FactorPerformance>)
    ensures
        shown@ == logs@.skip(tail_start(logs@.len() as int, limit as int)),
{
    let mut logs = logs;
    if logs.len() > limit {
        let at: usize = logs.len() - limit;
        let ghost all = logs@;
        let shown = logs.split_off(at);
        assert(shown@ =~= all.skip(at as int));
        shown
    } else {
        assert(logs@.skip(0) =~= logs@);
        logs
    }
}

/// The run that was appended last to the log of `factor`.
pub fn latest_log(factor: &str, logs: Vec<FactorPerformance>) -> (r: Result<
    FactorPerformance,
    Error,
>)
    ensures
        match r {
            Ok(run) => logs@.len() > 0 && run == logs@.last(),
            Err(e) => logs@.len() == 0 && e@ == no_logs(factor@),
        },
{
    let mut logs = logs;
    match logs.pop() {
        Some(run) => Ok(run),
        None => Err(
            Error::NotFound(String::from_str("No logs found for factor: ").concat(factor)),
        ),
    }
}

/// The names among `names` that are factors, in order.
pub open spec fn known_among(names: Seq<Seq<char>>) -> Seq<Seq<char>>
    decreases names.len(),
{
    if names.len() == 0 {
        Seq::empty()
    } else if factor_names().contains(names.last()) {
        known_among(names.drop_last()).push(names.last())
    } else {
        known_among(names.drop_last())
    }
}

/// The factors that a query selects: those of the names listed in the text
/// that are factors, in the order listed; every factor where there is no text.
pub open spec fn selected_factors(listed: Option<Seq<char>>) -> Seq<Seq<char>> {
    match listed {
        Some(text) => known_among(listed_names(text, 0)),
        None => factor_names(),
    }
}

/// The factors that a query selects.
pub fn select_factors(listed: Option<&str>) -> (names: Vec<String>)
    ensures
        texts(names@) == selected_factors(opt_slice(listed)),
{
    let mut names: Vec<String> = Vec::new();
    match listed {
        Some(text) => {
            let asked = split_names(text);
            let mut i: usize = 0;
            assert(texts(asked@).take(0) =~= Seq::empty());
            assert(texts(names@) =~= Seq::empty());
            while i < asked.len()
                invariant
                    i <= asked@.len(),
                    texts(names@) == known_among(texts(asked@).take(i as int)),
                decreases asked@.len() - i,
            {
                let ghost before = texts(names@);
                assert(texts(asked@).take(i + 1).drop_last() =~= texts(asked@).take(i as int));
                assert(texts(asked@).take(i + 1).last() == asked@[i as int]@);
                if is_available_factor(asked[i].as_str()) {
                    names.push(asked[i].clone());
                    assert(texts(names@) =~= before.push(asked@[i as int]@));
                }
                i += 1;
            }
            assert(texts(asked@).take(i as int) =~= texts(asked@));
        },
        None => {
            let all = available_factors();
            let mut i: usize = 0;
            while i < all.len()
                invariant
                    i <= all@.len(),
                    all@.len() == factor_names().len(),
                    forall|k: int|
                        0 <= k < all@.len() ==> (#[trigger] all@[k])@ == factor_names()[k],
                    names@.len() == i,
                    forall|k: int| 0 <= k < i ==> (#[trigger] names@[k])@ == factor_names()[k],
                decreases all@.len() - i,
            {
                names.push(String::from_str(all[i]));
                i += 1;
            }
            assert(texts(names@) =~= factor_names());
        },
    }
    names
}

/// The first index at or after `from` whose date is not before `start`, or
/// the number of dates where there is none.
pub open spec fn first_not_before(dates: Seq<Seq<char>>, start: Seq<char>, from: int) -> int
    decreases dates.len() - from,
{
    if 0 <= from < dates.len() && text_lt(dates[from], start) {
        first_not_before(dates, start, from + 1)
    } else {
        from
    }
}

/// The first index at or after `from` whose date is after `end`, or the
/// number of dates where there is none.
pub open spec fn first_after(dates: Seq<Seq<char>>, end: Seq<char>, from: int) -> int
    decreases dates.len() - from,
{
    if 0 <= from < dates.len() && !text_lt(end, dates[from]) {
        first_after(dates, end, from + 1)
    } else {
        from
    }
}

/// Where the part of a series shown begins: at the first date that is not
/// before `start`, which is the end of the series where every date is before
/// `start`; at the beginning of the series where no start is asked for.
pub open spec fn clip_low(dates: Seq<Seq<char>>, start: Option<Seq<char>>) -> int {
    match start {
        Some(s) => first_not_before(dates, s, 0),
        None => 0,
    }
}

/// Where the part of a series shown ends: before the first date, from `low`
/// on, that is after `end`; at the end of the series where there is no such
/// date or no end is asked for.
pub open spec fn clip_high(dates: Seq<Seq<char>>, end: Option<Seq<char>>, low: int) -> int {
    match end {
        Some(e) => first_after(dates, e, low),
        None => dates.len() as int,
    }
}

/// The indices between which a date range cuts a series: the first index
/// shown and the index after the last one shown.
pub fn clip_range(dates: &Vec<String>, start: Option<&str>, end: Option<&str>) -> (r: (
    usize,
    usize,
))
    ensures
        r.0 == clip_low(texts(dates@), opt_slice(start)),
        r.1 == clip_high(texts(dates@), opt_slice(end), r.0 as int),
        r.0 <= r.1 <= dates@.len(),
{
    let mut low: usize = 0;
    match start {
        Some(s) => {
            let mut i: usize = 0;
            while i < dates.len() && text_before(dates[i].as_str(), s)
                invariant
                    i <= dates@.len(),
                    first_not_before(texts(dates@), s@, 0) == first_not_before(
                        texts(dates@),
                        s@,
                        i as int,
                    ),
                decreases dates@.len() - i,
            {
                i += 1;
            }
            low = i;
        },
        None => {},
    }
    let mut high: usize = dates.len();
    match end {
        Some(e) => {
            let mut j: usize = low;
            while j < dates.len() && !text_before(e, dates[j].as_str())
                invariant
                    low <= j <= dates@.len(),
                    first_after(texts(dates@), e@, low as int) == first_after(
                        texts(dates@),
                        e@,
                        j as int,
                    ),
                decreases dates@.len() - j,
            {
                j += 1;
            }
            high = j;
        },
        None => {},
    }
    (low, high)
}

/// A copy of the strings from index `low` up to index `high`.
fn copy_range(values: &Vec<String>, low: usize, high: usize) -> (part: Vec<String>)
    requires
        low <= high <= values@.len(),
    ensures
        texts(part@) == texts(values@).subrange(low as int, high as int),
{
    let mut part: Vec<String> = Vec::new();
    let mut i: usize = low;
    while i < high
        invariant
            low <= i <= high <= values@.len(),
            part@.len() == i - low,
            forall|k: int| 0 <= k < part@.len() ==> (#[trigger] part@[k])@ == values@[low + k]@,
        decreases high - i,
    {
        part.push(values[i].clone());
        i += 1;
    }
    assert(texts(part@) =~= texts(values@).subrange(low as int, high as int));
    part
}

/// The part of a return series that a date range selects. The series has one
/// return and one cumulative return for each date.
pub fn clip_series(series: &FactorReturns, start: Option<&str>, end: Option<&str>) -> (shown:
    FactorReturns)
    requires
        series.dates@.len() == series.returns@.len(),
        series.dates@.len() == series.cumulative_returns@.len(),
    ensures
        shown.factor@ == series.factor@,
        ({
            let low = clip_low(texts(series.dates@), opt_slice(start));
            let high = clip_high(texts(series.dates@), opt_slice(end), low);
            &&& texts(shown.dates@) == texts(series.dates@).subrange(low, high)
            &&& texts(shown.returns@) == texts(series.returns@).subrange(low, high)
            &&& texts(shown.cumulative_returns@) == texts(series.cumulative_returns@).subrange(
                low,
                high,
            )
        }),
{
    let (low, high) = clip_range(&series.dates, start, end);
    FactorReturns {
        factor: series.factor.clone(),
        dates: copy_range(&series.dates, low, high),
        returns: copy_range(&series.returns, low, high),
        cumulative_returns: copy_range(&series.cumulative_returns, low, high),
    }
}

/// Whether a date lies in a range: not before the start and not after the
/// end, where a bound that is not given is no bound.
pub open spec fn in_date_range(date: Seq<char>, start: Option<Seq<char>>, end: Option<Seq<char>>) -> bool {
    &&& start matches Some(s) ==> !text_lt(date, s)
    &&& end matches Some(e) ==> !text_lt(e, date)
}

/// Whether the dates are in ascending order: none comes before an earlier one.
pub open spec fn dates_in_order(dates: Seq<Seq<char>>) -> bool {
    forall|i: int, j: int| 0 <= i < j < dates.len() ==> !text_lt(dates[j], dates[i])
}

/// The first date not before `start` lies within the series, every date
/// before it is before `start`, and it is itself not before `start`.
proof fn lemma_first_not_before(dates: Seq<Seq<char>>, start: Seq<char>, from: int)
    requires
        0 <= from <= dates.len(),
    ensures
        from <= first_not_before(dates, start, from) <= dates.len(),
        forall|i: int|
            from <= i < first_not_before(dates, start, from) ==> text_lt(
                #[trigger] dates[i],
                start,
            ),
        first_not_before(dates, start, from) < dates.len() ==> !text_lt(
            dates[first_not_before(dates, start, from)],
            start,
        ),
    decreases dates.len() - from,
{
    if from < dates.len() && text_lt(dates[from], start) {
        lemma_first_not_before(dates, start, from + 1);
    }
}

/// The first date after `end` lies within the series, no date before it is
/// after `end`, and it is itself after `end`.
proof fn lemma_first_after(dates: Seq<Seq<char>>, end: Seq<char>, from: int)
    requires
        0 <= from <= dates.len(),
    ensures
        from <= first_after(dates, end, from) <= dates.len(),
        forall|i: int|
            from <= i < first_after(dates, end, from) ==> !text_lt(end, #[trigger] dates[i]),
        first_after(dates, end, from) < dates.len() ==> text_lt(
            end,
            dates[first_after(dates, end, from)],
        ),
    decreases dates.len() - from,
{
    if from < dates.len() && !text_lt(end, dates[from]) {
        lemma_first_after(dates, end, from + 1);
    }
}

/// Clipping is filtering by the date range: of a series whose dates are in
/// ascending order, the part shown holds exactly the dates that lie in the
/// range, in their order. A range that holds no date shows nothing.
pub proof fn lemma_clip_filters_range(
    dates: Seq<Seq<char>>,
    start: Option<Seq<char>>,
    end: Option<Seq<char>>,
)
    requires
        dates_in_order(dates),
    ensures
        0 <= clip_low(dates, start) <= clip_high(dates, end, clip_low(dates, start))
            <= dates.len(),
        forall|i: int|
            0 <= i < dates.len() ==> (clip_low(dates, start) <= i < clip_high(
                dates,
                end,
                clip_low(dates, start),
            ) <==> in_date_range(#[trigger] dates[i], start, end)),
        (forall|i: int| 0 <= i < dates.len() ==> !in_date_range(#[trigger] dates[i], start, end))
            ==> clip_low(dates, start) == clip_high(dates, end, clip_low(dates, start)),
{
    let low = clip_low(dates, start);
    if start is Some {
        lemma_first_not_before(dates, start->0, 0);
    }
    let high = clip_high(dates, end, low);
    if end is Some {
        lemma_first_after(dates, end->0, low);
    }
    assert forall|i: int| 0 <= i < dates.len() implies (low <= i < high <==> in_date_range(
        #[trigger] dates[i],
        start,
        end,
    )) by {
        if start is Some {
            let s = start->0;
            if i >= low {
                // The date at `low` is not before the start, and this one is not before it.
                if i > low {
                    lemma_text_not_before_chain(dates[i], dates[low], s);
                }
            }
        }
        if end is Some {
            let e = end->0;
            if i >= high {
                // The date at `high` is after the end, and this one is not before it.
                if i > high {
                    lemma_text_after_chain(e, dates[high], dates[i]);
                }
            }
            if i < low {
                assert(start is Some);
            }
        }
    }
    if low < high {
        assert(in_date_range(dates[low], start, end));
    }
}

} // verus!

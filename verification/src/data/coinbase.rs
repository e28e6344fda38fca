//! The exchange provider: which products to ask for, how a date range is cut
//! into pages, how a page is retried, and how candles become price rows.

use crate::data::calendar::{day_end_second, day_in_range, day_start_second, Date};
use crate::data::table::{merge_present, merged_names, present_tables, stacked_rows, Table};
use crate::data::mappings::{artemis_to_coinbase, product_of};
use crate::error::Error;
use crate::text::{
    format_signed, is_numeric, is_numeric_text, parse_i64, parse_signed, signed_text, texts,
};
use vstd::prelude::*;
use vstd::string::StringExecFns;

verus! {

/// The most days that the provider serves in one page.
pub const MAX_CANDLES_PER_REQUEST: i64 = 300;

/// Milliseconds to wait after each page, whatever its outcome.
pub const RATE_LIMIT_DELAY_MS: u64 = 100;

/// Milliseconds from which the delay before a retry is doubled.
pub const BACKOFF_BASE_MS: u64 = 100;

/// How often one page is asked for before it is given up.
pub const MAX_ATTEMPTS: u32 = 3;

/// A run of consecutive days, both ends included, asked for in one page.
#[derive(Clone, Copy, Debug, PartialEq, Eq)]
pub struct Window {
    /// The first day of the page.
    pub start: Date,
    /// The last day of the page.
    pub end: Date,
}

/// How many pages cover the days from `first` to `last`: none for an empty
/// range, else the number of days divided by the page size, rounded up.
pub open spec fn window_count(first: int, last: int) -> int {
    if first > last {
        0
    } else {
        (last - first) / MAX_CANDLES_PER_REQUEST as int + 1
    }
}

/// The first day of page `k`.
pub open spec fn window_start(first: int, k: int) -> int {
    first + MAX_CANDLES_PER_REQUEST * k
}

/// The last day of page `k`: a full page, cut off at `last`.
pub open spec fn window_end(first: int, last: int, k: int) -> int {
    if window_start(first, k + 1) - 1 <= last {
        window_start(first, k + 1) - 1
    } else {
        last
    }
}

/// Whether `windows` are the pages that cover the days from `first` to `last`.
pub open spec fn is_window_plan(windows: Seq<Window>, first: int, last: int) -> bool {
    &&& windows.len() == window_count(first, last)
    &&& forall|k: int|
        0 <= k < windows.len() ==> {
            &&& (#[trigger] windows[k]).start.day_number() == window_start(first, k)
            &&& windows[k].end.day_number() == window_end(first, last, k)
        }
}

/// The days covered by the first `k` pages, counted page by page.
pub open spec fn covered_days(first: int, last: int, k: int) -> int
    decreases k,
{
    if k <= 0 {
        0
    } else {
        covered_days(first, last, k - 1) + (window_end(first, last, k - 1) - window_start(
            first,
            k - 1,
        ) + 1)
    }
}

/// The first `k` pages cover the days before page `k` starts, and nothing else.
proof fn lemma_covered_prefix(first: int, last: int, k: int)
    requires
        first <= last,
        0 <= k < window_count(first, last),
    ensures
        covered_days(first, last, k) == window_start(first, k) - first,
    decreases k,
{
    if k > 0 {
        lemma_covered_prefix(first, last, k - 1);
    }
}

/// The pages of a range that spans at least one day partition it: the first
/// page starts on the first day, the last page ends on the last day, each page
/// starts on the day after the page before it ends, no page is empty or longer
/// than the page size, and the days of all pages add up to the days of the
/// range.
pub proof fn lemma_windows_partition(first: int, last: int)
    requires
        first <= last,
    ensures
        window_count(first, last) >= 1,
        window_count(first, last) * MAX_CANDLES_PER_REQUEST >= last - first + 1,
        (window_count(first, last) - 1) * MAX_CANDLES_PER_REQUEST < last - first + 1,
        window_start(first, 0) == first,
        window_end(first, last, window_count(first, last) - 1) == last,
        forall|k: int|
            0 <= k < window_count(first, last) - 1 ==> #[trigger] window_start(first, k + 1)
                == window_end(first, last, k) + 1,
        forall|k: int|
            0 <= k < window_count(first, last) ==> {
                &&& #[trigger] window_start(first, k) <= window_end(first, last, k)
                &&& window_end(first, last, k) - window_start(first, k) + 1
                    <= MAX_CANDLES_PER_REQUEST
            },
        covered_days(first, last, window_count(first, last)) == last - first + 1,
{
    let n = window_count(first, last);
    lemma_covered_prefix(first, last, n - 1);
}

/// The settings of the exchange provider's client.
#[derive(Debug)]
pub struct CoinbaseClient {
    base_url: String,
    max_candles_per_request: i64,
    rate_limit_delay_ms: u64,
}

/// One product to fetch: the symbol that asked for it, the product
/// identifier, and the address of its candles.
#[derive(Clone, Debug, PartialEq, Eq)]
pub struct PriceTask {
    /// The symbol of the metrics provider.
    pub symbol: String,
    /// The product identifier of the exchange provider.
    pub product_id: String,
    /// The address that serves the product's candles.
    pub url: String,
}

/// The address of a product's candles under a base address.
pub open spec fn candles_address(base: Seq<char>, product: Seq<char>) -> Seq<char> {
    base + "/products/"@ + product + "/candles"@
}

/// The tasks for a list of symbols: one for each symbol that has a product
/// identifier, in the order of the symbols.
pub open spec fn planned_tasks(base: Seq<char>, symbols: Seq<Seq<char>>) -> Seq<
    (Seq<char>, Seq<char>, Seq<char>),
>
    decreases symbols.len(),
{
    if symbols.len() == 0 {
        Seq::empty()
    } else {
        let before = planned_tasks(base, symbols.drop_last());
        match product_of(symbols.last()) {
            Some(product) => before.push(
                (symbols.last(), product, candles_address(base, product)),
            ),
            None => before,
        }
    }
}

/// The texts of a sequence of tasks.
pub open spec fn task_texts(tasks: Seq<PriceTask>) -> Seq<(Seq<char>, Seq<char>, Seq<char>)> {
    Seq::new(tasks.len(), |i: int| (tasks[i].symbol@, tasks[i].product_id@, tasks[i].url@))
}

impl Clone for CoinbaseClient {
    fn clone(&self) -> (copy: CoinbaseClient)
        ensures
            copy.base() == self.base(),
    {
        proof {
            use_type_invariant(self);
        }
        CoinbaseClient {
            base_url: self.base_url.clone(),
            max_candles_per_request: self.max_candles_per_request,
            rate_limit_delay_ms: self.rate_limit_delay_ms,
        }
    }
}

impl CoinbaseClient {
    #[verifier::type_invariant]
    spec fn fixed_limits(self) -> bool {
        &&& self.max_candles_per_request == MAX_CANDLES_PER_REQUEST
        &&& self.rate_limit_delay_ms == RATE_LIMIT_DELAY_MS
    }

    /// The base address of the provider.
    pub closed spec fn base(self) -> Seq<char> {
        self.base_url@
    }

    /// A client for the provider at `base_url`.
    pub fn new(base_url: String) -> (client: CoinbaseClient)
        ensures
            client.base() == base_url@,
    {
        CoinbaseClient {
            base_url,
            max_candles_per_request: MAX_CANDLES_PER_REQUEST,
            rate_limit_delay_ms: RATE_LIMIT_DELAY_MS,
        }
    }

    /// The base address of the provider.
    pub fn base_url(&self) -> (r: &String)
        ensures
            r@ == self.base(),
    {
        &self.base_url
    }

    /// The most days asked for in one page.
    pub fn max_candles_per_request(&self) -> (n: i64)
        ensures
            n == MAX_CANDLES_PER_REQUEST,
    {
        proof {
            use_type_invariant(self);
        }
        self.max_candles_per_request
    }

    /// Milliseconds to wait after each page.
    pub fn rate_limit_delay_ms(&self) -> (n: u64)
        ensures
            n == RATE_LIMIT_DELAY_MS,
    {
        proof {
            use_type_invariant(self);
        }
        self.rate_limit_delay_ms
    }

    /// The address that serves the candles of a product.
    pub fn candles_url(&self, product_id: &str) -> (url: String)
        ensures
            url@ == candles_address(self.base(), product_id@),
    {
        self.base_url.clone().concat("/products/").concat(product_id).concat("/candles")
    }

    /// Decides which products to fetch for a list of symbols. An empty list
    /// is refused; a symbol without a product identifier is passed over.
    pub fn plan_tasks(&self, symbols: &Vec<String>) -> (r: Result<Vec<PriceTask>, Error>)
        ensures
            match r {
                Ok(tasks) => symbols@.len() > 0 && task_texts(tasks@) == planned_tasks(
                    self.base(),
                    texts(symbols@),
                ),
                Err(e) => symbols@.len() == 0 && e is InvalidInput && e.detail()
                    == "No symbols provided"@,
            },
    {
        if symbols.len() == 0 {
            return Err(Error::InvalidInput(String::from_str("No symbols provided")));
        }
        let mut tasks: Vec<PriceTask> = Vec::new();
        let mut i: usize = 0;
        assert(texts(symbols@).take(0) =~= Seq::empty());
        assert(task_texts(tasks@) =~= Seq::empty());
        while i < symbols.len()
            invariant
                i <= symbols.len(),
                task_texts(tasks@) == planned_tasks(self.base(), texts(symbols@).take(i as int)),
            decreases symbols.len() - i,
        {
            let ghost before = task_texts(tasks@);
            let ghost prefix = texts(symbols@).take(i + 1);
            assert(prefix.drop_last() =~= texts(symbols@).take(i as int));
            assert(prefix.last() == symbols@[i as int]@);
            match artemis_to_coinbase(symbols[i].as_str()) {
                Some(product) => {
                    let url = self.candles_url(product);
                    tasks.push(
                        PriceTask {
                            symbol: symbols[i].clone(),
                            product_id: String::from_str(product),
                            url,
                        },
                    );
                    assert(task_texts(tasks@) =~= before.push(
                        (symbols@[i as int]@, product@, candles_address(self.base(), product@)),
                    ));
                },
                None => {},
            }
            i += 1;
        }
        assert(texts(symbols@).take(i as int) =~= texts(symbols@));
        Ok(tasks)
    }

    /// Cuts the days from `start` to `end` into pages of at most
    /// `MAX_CANDLES_PER_REQUEST` days. A range that ends before it starts has
    /// no page.
    pub fn plan_windows(&self, start: Date, end: Date) -> (windows: Vec<Window>)
        ensures
            is_window_plan(windows@, start.day_number(), end.day_number()),
    {
        let first: i64 = start.days() as i64;
        let last: i64 = end.days() as i64;
        let mut windows: Vec<Window> = Vec::new();
        let mut cur: i64 = first;
        while cur <= last
            invariant
                first == start.day_number(),
                last == end.day_number(),
                day_in_range(first as int),
                day_in_range(last as int),
                cur == window_start(first as int, windows@.len() as int),
                windows@.len() > 0 ==> cur <= last + MAX_CANDLES_PER_REQUEST,
                windows@.len() <= window_count(first as int, last as int),
                cur <= last ==> windows@.len() < window_count(first as int, last as int),
                cur > last ==> windows@.len() == window_count(first as int, last as int),
                forall|k: int|
                    0 <= k < windows@.len() ==> {
                        &&& (#[trigger] windows@[k]).start.day_number() == window_start(
                            first as int,
                            k,
                        )
                        &&& windows@[k].end.day_number() == window_end(first as int, last as int, k)
                    },
            decreases last + MAX_CANDLES_PER_REQUEST - cur,
        {
            let full: i64 = cur + (MAX_CANDLES_PER_REQUEST - 1);
            let stop: i64 = if full <= last { full } else { last };
            let from = Date::from_day_number(cur as i32);
            let to = Date::from_day_number(stop as i32);
            windows.push(Window { start: from.unwrap(), end: to.unwrap() });
            cur = cur + MAX_CANDLES_PER_REQUEST;
        }
        windows
    }
}

/// One candle as the provider sends it: every field is text.
#[derive(Clone, Debug, PartialEq, Eq)]
pub struct Candle {
    /// Start of the period, in seconds since 1970-01-01T00:00:00Z.
    pub start: String,
    /// Opening price; accepted and not used.
    pub open: String,
    /// Highest price; accepted and not used.
    pub high: String,
    /// Lowest price; accepted and not used.
    pub low: String,
    /// Closing price.
    pub close: String,
    /// Traded volume.
    pub volume: String,
}

/// One day of one product: when the day starts, the closing price and the
/// traded volume. Price and volume are kept as the numeric texts received.
#[derive(Clone, Debug, PartialEq, Eq)]
pub struct PricePoint {
    /// Start of the day, in milliseconds since 1970-01-01T00:00:00Z.
    pub date: i64,
    /// Closing price, a numeric text.
    pub price: String,
    /// Traded volume, a numeric text.
    pub volume: String,
}

/// Milliseconds in a second.
pub const MILLIS_PER_SECOND: i64 = 1000;

/// The start of a candle in milliseconds, if its start is a decimal number of
/// seconds whose thousandfold fits in 64 bits.
pub open spec fn candle_millis(c: Candle) -> Option<int> {
    match parse_signed(c.start@, i64::MIN as int, i64::MAX as int) {
        Some(seconds) => if i64::MIN <= seconds * MILLIS_PER_SECOND <= i64::MAX {
            Some(seconds * MILLIS_PER_SECOND)
        } else {
            None
        },
        None => None,
    }
}

/// Whether a candle can be read: its start gives a time, and its closing
/// price and its volume are numeric texts.
pub open spec fn candle_readable(c: Candle) -> bool {
    candle_millis(c) is Some && is_numeric(c.close@) && is_numeric(c.volume@)
}

/// Whether `p` is what candle `c` says.
pub open spec fn point_of_candle(p: PricePoint, c: Candle) -> bool {
    &&& candle_millis(c) == Some(p.date as int)
    &&& p.price@ == c.close@
    &&& p.volume@ == c.volume@
}

/// Reads one candle. The start must be a number of seconds, the closing price
/// and the volume numeric texts; anything else is a parse error.
pub fn parse_candle(c: &Candle) -> (r: Result<PricePoint, Error>)
    ensures
        match r {
            Ok(p) => candle_readable(*c) && point_of_candle(p, *c),
            Err(e) => !candle_readable(*c) && e is Parse,
        },
{
    let seconds = match parse_i64(c.start.as_str()) {
        Some(t) => t,
        None => {
            return Err(Error::Parse(String::from_str("Invalid timestamp")));
        },
    };
    if seconds > i64::MAX / MILLIS_PER_SECOND || seconds < -(i64::MAX / MILLIS_PER_SECOND) {
        return Err(Error::Parse(String::from_str("Invalid timestamp")));
    }
    if !is_numeric_text(c.close.as_str()) {
        return Err(Error::Parse(String::from_str("Invalid price")));
    }
    if !is_numeric_text(c.volume.as_str()) {
        return Err(Error::Parse(String::from_str("Invalid volume")));
    }
    Ok(PricePoint { date: seconds * MILLIS_PER_SECOND, price: c.close.clone(), volume: c.volume.clone() })
}

/// Whether every candle of a page can be read.
pub open spec fn page_readable(candles: Seq<Candle>) -> bool {
    forall|i: int| 0 <= i < candles.len() ==> candle_readable(#[trigger] candles[i])
}

/// Whether `points` are what the candles of a page say, one for one.
pub open spec fn points_of_page(points: Seq<PricePoint>, candles: Seq<Candle>) -> bool {
    &&& points.len() == candles.len()
    &&& forall|i: int| 0 <= i < candles.len() ==> point_of_candle(#[trigger] points[i], candles[i])
}

/// Reads the candles of one page, in order. One candle that cannot be read
/// makes the whole page a parse error.
pub fn parse_candles(candles: &Vec<Candle>) -> (r: Result<Vec<PricePoint>, Error>)
    ensures
        match r {
            Ok(points) => page_readable(candles@) && points_of_page(points@, candles@),
            Err(e) => !page_readable(candles@) && e is Parse,
        },
{
    let mut points: Vec<PricePoint> = Vec::new();
    let mut i: usize = 0;
    while i < candles.len()
        invariant
            i <= candles.len(),
            points@.len() == i,
            forall|k: int| 0 <= k < i ==> candle_readable(#[trigger] candles@[k]),
            forall|k: int| 0 <= k < i ==> point_of_candle(#[trigger] points@[k], candles@[k]),
        decreases candles.len() - i,
    {
        match parse_candle(&candles[i]) {
            Ok(p) => {
                points.push(p);
            },
            Err(e) => {
                assert(!candle_readable(candles@[i as int]));
                return Err(e);
            },
        }
        i += 1;
    }
    Ok(points)
}

/// Whether the dates of `rows` ascend strictly.
pub open spec fn dates_ascending(rows: Seq<PricePoint>) -> bool {
    forall|i: int, j: int| 0 <= i < j < rows.len() ==> rows[i].date < rows[j].date
}

/// Whether row `i` is the first of `rows` with its date.
pub open spec fn is_first_seen(rows: Seq<PricePoint>, i: int) -> bool {
    &&& 0 <= i < rows.len()
    &&& forall|k: int| 0 <= k < i ==> (#[trigger] rows[k]).date != rows[i].date
}

/// Whether some row of `rows` has the date `date`.
pub open spec fn has_date(rows: Seq<PricePoint>, date: i64) -> bool {
    exists|j: int| 0 <= j < rows.len() && (#[trigger] rows[j]).date == date
}

/// Whether `row` is, for its date, the first row of `rows`.
pub open spec fn is_first_seen_row(rows: Seq<PricePoint>, row: PricePoint) -> bool {
    exists|i: int| #[trigger] is_first_seen(rows, i) && rows[i] == row
}

/// Whether `out` holds, for every date of `rows`, the first row with that
/// date, and nothing else.
pub open spec fn keeps_first_seen(rows: Seq<PricePoint>, out: Seq<PricePoint>) -> bool {
    &&& forall|j: int| 0 <= j < out.len() ==> is_first_seen_row(rows, #[trigger] out[j])
    &&& forall|i: int| 0 <= i < rows.len() ==> has_date(out, (#[trigger] rows[i]).date)
}

/// A row whose date is there already changes nothing.
proof fn lemma_seen_again(seen: Seq<PricePoint>, row: PricePoint, out: Seq<PricePoint>)
    requires
        keeps_first_seen(seen, out),
        has_date(out, row.date),
    ensures
        keeps_first_seen(seen.push(row), out),
{
    let next = seen.push(row);
    assert forall|j: int| 0 <= j < out.len() implies is_first_seen_row(
        next,
        #[trigger] out[j],
    ) by {
        let i = choose|i: int| #[trigger] is_first_seen(seen, i) && seen[i] == out[j];
        assert forall|k: int| 0 <= k < i implies (#[trigger] next[k]).date != next[i].date by {
            assert(next[k] == seen[k]);
        }
        assert(is_first_seen(next, i) && next[i] == out[j]);
    }
    assert forall|i: int| 0 <= i < next.len() implies has_date(
        out,
        (#[trigger] next[i]).date,
    ) by {
        if i < seen.len() {
            assert(next[i] == seen[i]);
        }
    }
}

/// A row with a new date takes its place among the dates.
proof fn lemma_first_seen(seen: Seq<PricePoint>, row: PricePoint, out: Seq<PricePoint>, p: int)
    requires
        dates_ascending(out),
        keeps_first_seen(seen, out),
        0 <= p <= out.len(),
        forall|k: int| 0 <= k < p ==> (#[trigger] out[k]).date < row.date,
        forall|k: int| p <= k < out.len() ==> (#[trigger] out[k]).date > row.date,
    ensures
        dates_ascending(out.insert(p, row)),
        keeps_first_seen(seen.push(row), out.insert(p, row)),
{
    let next = seen.push(row);
    let grown = out.insert(p, row);
    assert(grown[p] == row);
    assert forall|k: int| 0 <= k < grown.len() && k != p implies #[trigger] grown[k] == out[if k
        < p {
        k
    } else {
        k - 1
    }] by {}
    assert forall|a: int, b: int| 0 <= a < b < grown.len() implies grown[a].date
        < grown[b].date by {
        let aa = if a < p { a } else { a - 1 };
        let bb = if b < p { b } else { b - 1 };
        if a != p {
            assert(grown[a] == out[aa]);
        }
        if b != p {
            assert(grown[b] == out[bb]);
        }
    }
    // No row seen so far has the new date.
    assert forall|k: int| 0 <= k < seen.len() implies (#[trigger] next[k]).date != row.date by {
        assert(next[k] == seen[k]);
        assert(has_date(out, seen[k].date));
        let j = choose|j: int| 0 <= j < out.len() && (#[trigger] out[j]).date == seen[k].date;
        if j < p {
            assert(out[j].date < row.date);
        } else {
            assert(out[j].date > row.date);
        }
    }
    assert(is_first_seen(next, seen.len() as int));
    assert forall|j: int| 0 <= j < grown.len() implies is_first_seen_row(
        next,
        #[trigger] grown[j],
    ) by {
        if j == p {
            assert(is_first_seen(next, seen.len() as int) && next[seen.len() as int] == grown[j]);
        } else {
            let jj = if j < p { j } else { j - 1 };
            assert(grown[j] == out[jj]);
            assert(is_first_seen_row(seen, out[jj]));
            let i = choose|i: int| #[trigger] is_first_seen(seen, i) && seen[i] == out[jj];
            assert forall|k: int| 0 <= k < i implies (#[trigger] next[k]).date
                != next[i].date by {
                assert(next[k] == seen[k]);
            }
            assert(is_first_seen(next, i) && next[i] == grown[j]);
        }
    }
    assert forall|i: int| 0 <= i < next.len() implies has_date(
        grown,
        (#[trigger] next[i]).date,
    ) by {
        if i < seen.len() {
            assert(next[i] == seen[i]);
            assert(has_date(out, seen[i].date));
            let j = choose|j: int| 0 <= j < out.len() && (#[trigger] out[j]).date == seen[i].date;
            let jj = if j < p { j } else { j + 1 };
            assert(grown[jj] == out[j]);
        } else {
            assert(grown[p].date == next[i].date);
        }
    }
}

/// Every date of one of two results for the same rows is a date of the other.
proof fn lemma_same_dates(rows: Seq<PricePoint>, a: Seq<PricePoint>, b: Seq<PricePoint>, j: int)
    requires
        keeps_first_seen(rows, a),
        keeps_first_seen(rows, b),
        0 <= j < a.len(),
    ensures
        has_date(b, a[j].date),
{
    assert(is_first_seen_row(rows, a[j]));
    let i = choose|i: int| #[trigger] is_first_seen(rows, i) && rows[i] == a[j];
    assert(has_date(b, rows[i].date));
}

/// Two results for the same rows have the same dates at the same places, as
/// far as both reach.
proof fn lemma_same_date_at(rows: Seq<PricePoint>, a: Seq<PricePoint>, b: Seq<PricePoint>, k: int)
    requires
        dates_ascending(a),
        keeps_first_seen(rows, a),
        dates_ascending(b),
        keeps_first_seen(rows, b),
        0 <= k < a.len(),
    ensures
        k < b.len(),
        a[k].date == b[k].date,
    decreases k,
{
    // The dates before place `k` agree.
    assert forall|i: int| 0 <= i < k implies i < b.len() && a[i].date == b[i].date by {
        lemma_same_date_at(rows, a, b, i);
    }
    lemma_same_dates(rows, a, b, k);
    let m = choose|m: int| 0 <= m < b.len() && (#[trigger] b[m]).date == a[k].date;
    if m < k {
        assert(a[m].date == b[m].date);
        assert(a[m].date < a[k].date);
    }
    assert(k <= m);
    lemma_same_dates(rows, b, a, k);
    let n = choose|n: int| 0 <= n < a.len() && (#[trigger] a[n]).date == b[k].date;
    if n < k {
        assert(a[n].date == b[n].date);
        assert(b[n].date < b[k].date);
    }
    assert(k <= n);
    if k < m {
        assert(b[k].date < b[m].date);
    }
    if k < n {
        assert(a[k].date < a[n].date);
    }
}

/// The result of sorting and deduplicating is determined by the rows: any two
/// sequences that ascend by date and keep the first row of each date are the
/// same sequence.
pub proof fn lemma_sort_dedup_unique(
    rows: Seq<PricePoint>,
    a: Seq<PricePoint>,
    b: Seq<PricePoint>,
)
    requires
        dates_ascending(a),
        keeps_first_seen(rows, a),
        dates_ascending(b),
        keeps_first_seen(rows, b),
    ensures
        a == b,
{
    if a.len() > 0 {
        lemma_same_date_at(rows, a, b, a.len() - 1);
    }
    if b.len() > 0 {
        lemma_same_date_at(rows, b, a, b.len() - 1);
    }
    assert(a.len() == b.len());
    assert forall|k: int| 0 <= k < a.len() implies a[k] == b[k] by {
        lemma_same_date_at(rows, a, b, k);
        assert(is_first_seen_row(rows, a[k]));
        assert(is_first_seen_row(rows, b[k]));
        let i = choose|i: int| #[trigger] is_first_seen(rows, i) && rows[i] == a[k];
        let j = choose|j: int| #[trigger] is_first_seen(rows, j) && rows[j] == b[k];
        if i < j {
            assert(rows[i].date != rows[j].date);
        }
        if j < i {
            assert(rows[j].date != rows[i].date);
        }
    }
    assert(a =~= b);
}

/// Sorts rows by date and keeps one row for each date: the one that comes
/// first in `rows`.
pub fn sort_dedup(rows: &Vec<PricePoint>) -> (out: Vec<PricePoint>)
    ensures
        dates_ascending(out@),
        keeps_first_seen(rows@, out@),
{
    let mut out: Vec<PricePoint> = Vec::new();
    let mut n: usize = 0;
    assert(rows@.take(0) =~= Seq::empty());
    while n < rows.len()
        invariant
            n <= rows.len(),
            dates_ascending(out@),
            keeps_first_seen(rows@.take(n as int), out@),
        decreases rows.len() - n,
    {
        let date = rows[n].date;
        // Rows mostly arrive in order, so the place is sought from the end.
        let mut p: usize = out.len();
        while p > 0 && out[p - 1].date >= date
            invariant
                p <= out.len(),
                dates_ascending(out@),
                forall|k: int| p <= k < out.len() ==> (#[trigger] out@[k]).date >= date,
            decreases p,
        {
            p -= 1;
        }
        assert(rows@.take(n + 1) =~= rows@.take(n as int).push(rows@[n as int]));
        if p < out.len() && out[p].date == date {
            proof {
                lemma_seen_again(rows@.take(n as int), rows@[n as int], out@);
            }
        } else {
            let row = PricePoint {
                date,
                price: rows[n].price.clone(),
                volume: rows[n].volume.clone(),
            };
            assert(row == rows@[n as int]);
            proof {
                assert forall|k: int| 0 <= k < p implies (#[trigger] out@[k]).date < date by {
                    assert(out@[p - 1].date < date);
                    if k < p - 1 {
                        assert(out@[k].date < out@[p - 1].date);
                    }
                }
                assert forall|k: int| p <= k < out@.len() implies (#[trigger] out@[k]).date
                    > date by {
                    if k > p {
                        assert(out@[p as int].date < out@[k].date);
                    }
                }
                lemma_first_seen(rows@.take(n as int), row, out@, p as int);
            }
            out.insert(p, row);
        }
        n += 1;
    }
    assert(rows@.take(n as int) =~= rows@);
    out
}

/// The query that asks for the candles from second `start` to second `end`
/// in periods of one day: the names and values of its three parameters.
pub open spec fn page_parameters(start: int, end: int) -> Seq<(Seq<char>, Seq<char>)> {
    seq![
        ("start"@, signed_text(start)),
        ("end"@, signed_text(end)),
        ("granularity"@, "ONE_DAY"@),
    ]
}

/// The texts of a sequence of parameters.
pub open spec fn parameter_texts(parameters: Seq<(String, String)>) -> Seq<(Seq<char>, Seq<char>)> {
    Seq::new(parameters.len(), |i: int| (parameters[i].0@, parameters[i].1@))
}

/// The parameters of the query for one page of candles.
pub fn page_query(start: i64, end: i64) -> (parameters: Vec<(String, String)>)
    ensures
        parameter_texts(parameters@) == page_parameters(start as int, end as int),
{
    let mut parameters: Vec<(String, String)> = Vec::new();
    parameters.push((String::from_str("start"), format_signed(start)));
    parameters.push((String::from_str("end"), format_signed(end)));
    parameters.push((String::from_str("granularity"), String::from_str("ONE_DAY")));
    assert(parameter_texts(parameters@) =~= page_parameters(start as int, end as int));
    parameters
}

/// The delay before the retry that follows the given number of failed
/// attempts: the base delay, doubled once for each failure.
pub open spec fn backoff_millis(failures: nat) -> nat
    decreases failures,
{
    if failures == 0 {
        BACKOFF_BASE_MS as nat
    } else {
        2 * backoff_millis((failures - 1) as nat)
    }
}

/// Each further failure doubles the delay; after the first failure it is
/// twice the base delay, after the second four times.
pub proof fn lemma_backoff_doubles(failures: nat)
    ensures
        backoff_millis(failures + 1) == 2 * backoff_millis(failures),
        backoff_millis(1) == 2 * BACKOFF_BASE_MS,
        backoff_millis(2) == 4 * BACKOFF_BASE_MS,
{
    reveal_with_fuel(backoff_millis, 3);
}

/// The delay before the retry that follows `failures` failed attempts.
pub fn backoff_delay(failures: u32) -> (millis: u64)
    requires
        failures < MAX_ATTEMPTS,
    ensures
        millis == backoff_millis(failures as nat),
{
    let mut millis: u64 = BACKOFF_BASE_MS;
    let mut k: u32 = 0;
    while k < failures
        invariant
            k <= failures < MAX_ATTEMPTS,
            millis == backoff_millis(k as nat),
            millis <= BACKOFF_BASE_MS * 4,
        decreases failures - k,
    {
        proof {
            lemma_backoff_doubles(k as nat);
            reveal_with_fuel(backoff_millis, 3);
        }
        millis = millis * 2;
        k += 1;
    }
    millis
}

/// Where the fetch of one product stands.
#[derive(Clone, Copy, Debug, PartialEq, Eq, Structural)]
pub enum Phase {
    /// A page has been asked for and its reply is awaited.
    Requesting,
    /// An attempt failed; the delay before the retry is running.
    BackingOff,
    /// A page is done with; the delay that spaces the requests is running.
    Pausing,
    /// Every page is done with.
    Finished,
}

/// What the caller is to do next.
#[derive(Clone, Copy, Debug, PartialEq, Eq, Structural)]
pub enum PagerAction {
    /// Ask for the candles from second `start` to second `end`, both
    /// included, in periods of one day, and report the reply.
    Request { start: i64, end: i64 },
    /// Wait for so many milliseconds, and report that the wait is over.
    Sleep { millis: u64 },
    /// Nothing is left to do: take the table.
    Finish,
}

/// How one attempt at a page ended.
#[derive(Clone, Debug, PartialEq, Eq)]
pub enum PageOutcome {
    /// The provider answered with these candles.
    Candles(Vec<Candle>),
    /// The request could not be sent, the provider answered with a failure
    /// status, or the body was not a list of candles.
    Failed,
}

/// What the caller reports back.
#[derive(Clone, Debug, PartialEq, Eq)]
pub enum PagerEvent {
    /// The attempt that was asked for has ended.
    Reply(PageOutcome),
    /// The wait that was asked for is over.
    Woke,
}

/// The fetch of one product's candles, page after page: which page is asked
/// for, how often it has failed, and the rows read so far.
#[derive(Debug)]
pub struct CandlePager {
    windows: Vec<Window>,
    page: usize,
    failures: u32,
    phase: Phase,
    rows: Vec<PricePoint>,
}

/// The names of the columns of one product's prices.
pub open spec fn candle_columns() -> Seq<Seq<char>> {
    seq!["date"@, "price"@, "24h_volume"@]
}

impl CandlePager {
    #[verifier::type_invariant]
    spec fn consistent(self) -> bool {
        &&& self.page <= self.windows@.len()
        &&& (self.phase == Phase::Finished <==> self.page == self.windows@.len())
        &&& self.failures < MAX_ATTEMPTS
        &&& (self.phase == Phase::BackingOff ==> self.failures >= 1)
    }

    /// The pages to fetch.
    pub closed spec fn pages(self) -> Seq<Window> {
        self.windows@
    }

    /// The index of the page that is being fetched.
    pub closed spec fn page(self) -> int {
        self.page as int
    }

    /// How many attempts at the page have failed.
    pub closed spec fn failures(self) -> int {
        self.failures as int
    }

    /// Where the fetch stands.
    pub closed spec fn phase(self) -> Phase {
        self.phase
    }

    /// The rows read so far, in the order in which they came.
    pub closed spec fn collected(self) -> Seq<PricePoint> {
        self.rows@
    }

    /// What holds of every pager: the page index stays within the pages, the
    /// fetch is finished exactly when no page is left, fewer attempts have
    /// failed than are allowed, and a retry is only waited for after a failure.
    pub open spec fn wf(self) -> bool {
        &&& 0 <= self.page() <= self.pages().len()
        &&& (self.phase() == Phase::Finished <==> self.page() == self.pages().len())
        &&& 0 <= self.failures() < MAX_ATTEMPTS
        &&& (self.phase() == Phase::BackingOff ==> self.failures() >= 1)
    }

    /// What the caller is to do in this state.
    pub open spec fn pending(self) -> PagerAction {
        match self.phase() {
            Phase::Requesting => PagerAction::Request {
                start: day_start_second(self.pages()[self.page()].start.day_number()) as i64,
                end: day_end_second(self.pages()[self.page()].end.day_number()) as i64,
            },
            Phase::BackingOff => PagerAction::Sleep {
                millis: backoff_millis(self.failures() as nat) as u64,
            },
            Phase::Pausing => PagerAction::Sleep { millis: RATE_LIMIT_DELAY_MS },
            Phase::Finished => PagerAction::Finish,
        }
    }

    /// Whether `next` is the state that follows `self` on `event`.
    ///
    /// While a reply is awaited: candles that can all be read are added to
    /// the rows, candles of which one cannot be read are dropped, and either
    /// way the page is done with; a failure is followed by a retry after a
    /// delay, unless it was the last attempt allowed, after which the page is
    /// done with and contributes nothing. When the delay before a retry is
    /// over, the same page is asked for again. When the delay after a page is
    /// over, the next page is asked for, or the fetch is finished. Any other
    /// event changes nothing.
    pub open spec fn steps_to(self, event: PagerEvent, next: CandlePager) -> bool {
        &&& next.pages() == self.pages()
        &&& match (self.phase(), event) {
            (Phase::Requesting, PagerEvent::Reply(PageOutcome::Candles(candles))) => {
                &&& next.phase() == Phase::Pausing
                &&& next.page() == self.page()
                &&& next.failures() == 0
                &&& if page_readable(candles@) {
                    &&& next.collected().len() == self.collected().len() + candles@.len()
                    &&& next.collected().take(self.collected().len() as int) == self.collected()
                    &&& points_of_page(
                        next.collected().skip(self.collected().len() as int),
                        candles@,
                    )
                } else {
                    next.collected() == self.collected()
                }
            },
            (Phase::Requesting, PagerEvent::Reply(PageOutcome::Failed)) => {
                &&& next.page() == self.page()
                &&& next.collected() == self.collected()
                &&& if self.failures() + 1 < MAX_ATTEMPTS {
                    next.phase() == Phase::BackingOff && next.failures() == self.failures() + 1
                } else {
                    next.phase() == Phase::Pausing && next.failures() == 0
                }
            },
            (Phase::BackingOff, PagerEvent::Woke) => {
                &&& next.phase() == Phase::Requesting
                &&& next.page() == self.page()
                &&& next.failures() == self.failures()
                &&& next.collected() == self.collected()
            },
            (Phase::Pausing, PagerEvent::Woke) => {
                &&& next.page() == self.page() + 1
                &&& next.failures() == 0
                &&& next.collected() == self.collected()
                &&& next.phase() == if self.page() + 1 < self.pages().len() {
                    Phase::Requesting
                } else {
                    Phase::Finished
                }
            },
            _ => {
                &&& next.phase() == self.phase()
                &&& next.page() == self.page()
                &&& next.failures() == self.failures()
                &&& next.collected() == self.collected()
            },
        }
    }

    /// Begins the fetch of the given pages: the first page is asked for, or
    /// the fetch is finished at once where there is none.
    pub fn start(windows: Vec<Window>) -> (r: (CandlePager, PagerAction))
        ensures
            r.0.wf(),
            r.0.pages() == windows@,
            r.0.page() == 0,
            r.0.failures() == 0,
            r.0.collected() == Seq::<PricePoint>::empty(),
            r.0.phase() == if windows@.len() > 0 {
                Phase::Requesting
            } else {
                Phase::Finished
            },
            r.1 == r.0.pending(),
    {
        let phase = if windows.len() > 0 { Phase::Requesting } else { Phase::Finished };
        let pager = CandlePager { windows, page: 0, failures: 0, phase, rows: Vec::new() };
        let action = pager.action();
        (pager, action)
    }

    /// What the caller is to do in this state.
    pub fn action(&self) -> (a: PagerAction)
        ensures
            a == self.pending(),
            self.wf(),
    {
        proof {
            use_type_invariant(self);
        }
        match self.phase {
            Phase::Requesting => PagerAction::Request {
                start: self.windows[self.page].start.start_timestamp(),
                end: self.windows[self.page].end.end_timestamp(),
            },
            Phase::BackingOff => PagerAction::Sleep { millis: backoff_delay(self.failures) },
            Phase::Pausing => PagerAction::Sleep { millis: RATE_LIMIT_DELAY_MS },
            Phase::Finished => PagerAction::Finish,
        }
    }

    /// Takes an event and gives the state that follows and what to do next.
    pub fn step(self, event: PagerEvent) -> (r: (CandlePager, PagerAction))
        ensures
            self.wf(),
            r.0.wf(),
            self.steps_to(event, r.0),
            r.1 == r.0.pending(),
    {
        proof {
            use_type_invariant(&self);
        }
        let CandlePager { windows, page, failures, phase, rows } = self;
        let next = match phase {
            Phase::Requesting => match event {
                PagerEvent::Reply(PageOutcome::Candles(candles)) => {
                    let mut rows = rows;
                    let ghost before = rows@;
                    match parse_candles(&candles) {
                        Ok(points) => {
                            let mut points = points;
                            let ghost added = points@;
                            rows.append(&mut points);
                            assert(rows@.take(before.len() as int) =~= before);
                            assert(rows@.skip(before.len() as int) =~= added);
                        },
                        Err(_) => {},
                    }
                    CandlePager { windows, page, failures: 0, phase: Phase::Pausing, rows }
                },
                PagerEvent::Reply(PageOutcome::Failed) => {
                    if failures + 1 < MAX_ATTEMPTS {
                        CandlePager {
                            windows,
                            page,
                            failures: failures + 1,
                            phase: Phase::BackingOff,
                            rows,
                        }
                    } else {
                        CandlePager { windows, page, failures: 0, phase: Phase::Pausing, rows }
                    }
                },
                PagerEvent::Woke => CandlePager { windows, page, failures, phase, rows },
            },
            Phase::BackingOff => match event {
                PagerEvent::Woke => {
                    CandlePager { windows, page, failures, phase: Phase::Requesting, rows }
                },
                PagerEvent::Reply(_) => CandlePager { windows, page, failures, phase, rows },
            },
            Phase::Pausing => match event {
                PagerEvent::Woke => {
                    assert(page < windows.len());
                    let phase = if page + 1 < windows.len() {
                        Phase::Requesting
                    } else {
                        Phase::Finished
                    };
                    CandlePager { windows, page: page + 1, failures: 0, phase, rows }
                },
                PagerEvent::Reply(_) => CandlePager { windows, page, failures, phase, rows },
            },
            Phase::Finished => CandlePager { windows, page, failures, phase, rows },
        };
        let action = next.action();
        (next, action)
    }

    /// Whether every page is done with.
    pub fn is_finished(&self) -> (r: bool)
        ensures
            r == (self.phase() == Phase::Finished),
    {
        match self.phase {
            Phase::Finished => true,
            _ => false,
        }
    }

    /// The product's prices: the rows read, sorted by date, one row for each
    /// date, namely the one that was read first.
    pub fn into_table(self) -> (t: Table<PricePoint>)
        ensures
            t.column_names() == candle_columns(),
            dates_ascending(t.rows@),
            keeps_first_seen(self.collected(), t.rows@),
    {
        let rows = sort_dedup(&self.rows);
        let mut columns: Vec<String> = Vec::new();
        columns.push(String::from_str("date"));
        columns.push(String::from_str("price"));
        columns.push(String::from_str("24h_volume"));
        assert(texts(columns@) =~= candle_columns());
        Table { columns, rows }
    }
}

/// One day of one asset: a price point with the symbol it was fetched for.
#[derive(Clone, Debug, PartialEq, Eq)]
pub struct AssetPricePoint {
    /// Start of the day, in milliseconds since 1970-01-01T00:00:00Z.
    pub date: i64,
    /// The symbol of the metrics provider.
    pub asset: String,
    /// Closing price, a numeric text.
    pub price: String,
    /// Traded volume, a numeric text.
    pub volume: String,
}

/// The names of the columns of the prices of many assets.
pub open spec fn price_columns() -> Seq<Seq<char>> {
    seq!["date"@, "asset"@, "price"@, "24h_volume"@]
}

/// Whether `tagged` is `point` with the asset `asset`.
pub open spec fn is_tagged(tagged: AssetPricePoint, point: PricePoint, asset: Seq<char>) -> bool {
    &&& tagged.date == point.date
    &&& tagged.asset@ == asset
    &&& tagged.price == point.price
    &&& tagged.volume == point.volume
}

/// The columns of the prices of many assets.
pub fn price_schema() -> (columns: Vec<String>)
    ensures
        texts(columns@) == price_columns(),
{
    let mut columns: Vec<String> = Vec::new();
    columns.push(String::from_str("date"));
    columns.push(String::from_str("asset"));
    columns.push(String::from_str("price"));
    columns.push(String::from_str("24h_volume"));
    assert(texts(columns@) =~= price_columns());
    columns
}

/// Widens one product's prices with the symbol they were fetched for. A
/// product without a row contributes no table.
pub fn tag_with_asset(symbol: &str, prices: &Table<PricePoint>) -> (r: Option<
    Table<AssetPricePoint>,
>)
    ensures
        prices.rows@.len() == 0 <==> r is None,
        r matches Some(t) ==> {
            &&& t.column_names() == price_columns()
            &&& t.rows@.len() == prices.rows@.len()
            &&& forall|i: int|
                0 <= i < t.rows@.len() ==> is_tagged(#[trigger] t.rows@[i], prices.rows@[i], symbol@)
        },
{
    if prices.rows.len() == 0 {
        return None;
    }
    let mut rows: Vec<AssetPricePoint> = Vec::new();
    let mut i: usize = 0;
    while i < prices.rows.len()
        invariant
            i <= prices.rows@.len(),
            rows@.len() == i,
            forall|k: int| 0 <= k < i ==> is_tagged(#[trigger] rows@[k], prices.rows@[k], symbol@),
        decreases prices.rows@.len() - i,
    {
        let point = &prices.rows[i];
        rows.push(
            AssetPricePoint {
                date: point.date,
                asset: String::from_str(symbol),
                price: point.price.clone(),
                volume: point.volume.clone(),
            },
        );
        i += 1;
    }
    Some(Table { columns: price_schema(), rows })
}

/// Puts the prices of all symbols into one table. A symbol that gave no
/// table contributes nothing; without any table the result is the empty table
/// over the price columns.
pub fn assemble_prices(parts: Vec<Option<Table<AssetPricePoint>>>) -> (t: Table<AssetPricePoint>)
    ensures
        t.column_names() == merged_names(present_tables(parts@), price_columns()),
        t.rows@ == stacked_rows(present_tables(parts@), t.column_names()),
{
    merge_present(parts, price_schema())
}

/// A symbol without a product identifier leaves no trace in the plan: the
/// tasks are those of the list without it.
pub proof fn lemma_unmapped_symbol_skipped(base: Seq<char>, symbols: Seq<Seq<char>>, i: int)
    requires
        0 <= i < symbols.len(),
        product_of(symbols[i]) is None,
    ensures
        planned_tasks(base, symbols) == planned_tasks(base, symbols.remove(i)),
    decreases symbols.len(),
{
    if i == symbols.len() - 1 {
        assert(symbols.remove(i) =~= symbols.drop_last());
    } else {
        lemma_unmapped_symbol_skipped(base, symbols.drop_last(), i);
        assert(symbols.remove(i).drop_last() =~= symbols.drop_last().remove(i));
        assert(symbols.remove(i).last() == symbols.last());
    }
}

/// Every task of a plan stands for a symbol of the list that has the task's
/// product identifier.
pub proof fn lemma_tasks_are_mapped(base: Seq<char>, symbols: Seq<Seq<char>>)
    ensures
        planned_tasks(base, symbols).len() <= symbols.len(),
        forall|k: int|
            0 <= k < planned_tasks(base, symbols).len() ==> {
                let task = #[trigger] planned_tasks(base, symbols)[k];
                &&& symbols.contains(task.0)
                &&& product_of(task.0) == Some(task.1)
                &&& task.2 == candles_address(base, task.1)
            },
    decreases symbols.len(),
{
    if symbols.len() > 0 {
        lemma_tasks_are_mapped(base, symbols.drop_last());
        let before = planned_tasks(base, symbols.drop_last());
        assert forall|k: int| 0 <= k < planned_tasks(base, symbols).len() implies {
            let task = #[trigger] planned_tasks(base, symbols)[k];
            &&& symbols.contains(task.0)
            &&& product_of(task.0) == Some(task.1)
            &&& task.2 == candles_address(base, task.1)
        } by {
            let task = planned_tasks(base, symbols)[k];
            if k < before.len() {
                assert(task == before[k]);
                let j = choose|j: int|
                    0 <= j < symbols.drop_last().len() && symbols.drop_last()[j] == task.0;
                assert(symbols[j] == task.0);
            } else {
                assert(symbols[symbols.len() - 1] == task.0);
            }
        }
    }
}

/// A page that fails twice and succeeds at the third attempt: the two
/// failures are each followed by one delay, the second twice as long as the
/// first; after each delay the same request goes out again; and the candles
/// of the third attempt are added to the rows, after which only the delay
/// that spaces the requests follows.
pub proof fn lemma_third_attempt_succeeds(
    s0: CandlePager,
    s1: CandlePager,
    s2: CandlePager,
    s3: CandlePager,
    s4: CandlePager,
    s5: CandlePager,
    candles: Vec<Candle>,
)
    requires
        s0.wf(),
        s0.phase() == Phase::Requesting,
        s0.failures() == 0,
        s0.steps_to(PagerEvent::Reply(PageOutcome::Failed), s1),
        s1.steps_to(PagerEvent::Woke, s2),
        s2.steps_to(PagerEvent::Reply(PageOutcome::Failed), s3),
        s3.steps_to(PagerEvent::Woke, s4),
        s4.steps_to(PagerEvent::Reply(PageOutcome::Candles(candles)), s5),
        page_readable(candles@),
    ensures
        s1.pending() == (PagerAction::Sleep { millis: (2 * BACKOFF_BASE_MS) as u64 }),
        s3.pending() == (PagerAction::Sleep { millis: (4 * BACKOFF_BASE_MS) as u64 }),
        s2.pending() == s0.pending(),
        s4.pending() == s0.pending(),
        s5.pending() == (PagerAction::Sleep { millis: RATE_LIMIT_DELAY_MS }),
        s5.page() == s0.page(),
        s5.collected().take(s0.collected().len() as int) == s0.collected(),
        points_of_page(s5.collected().skip(s0.collected().len() as int), candles@),
{
    lemma_backoff_doubles(0);
    lemma_backoff_doubles(1);
}

/// A page that fails at every attempt allowed is given up after the last
/// one: it adds no row, and the next event after the spacing delay moves on
/// to the page after it.
pub proof fn lemma_page_given_up(
    s0: CandlePager,
    s1: CandlePager,
    s2: CandlePager,
    s3: CandlePager,
    s4: CandlePager,
    s5: CandlePager,
    s6: CandlePager,
)
    requires
        s0.wf(),
        s0.phase() == Phase::Requesting,
        s0.failures() == 0,
        s0.steps_to(PagerEvent::Reply(PageOutcome::Failed), s1),
        s1.steps_to(PagerEvent::Woke, s2),
        s2.steps_to(PagerEvent::Reply(PageOutcome::Failed), s3),
        s3.steps_to(PagerEvent::Woke, s4),
        s4.steps_to(PagerEvent::Reply(PageOutcome::Failed), s5),
        s5.steps_to(PagerEvent::Woke, s6),
    ensures
        s5.pending() == (PagerAction::Sleep { millis: RATE_LIMIT_DELAY_MS }),
        s6.collected() == s0.collected(),
        s6.page() == s0.page() + 1,
        s6.failures() == 0,
{
}

} // verus!

//! The metrics provider: which symbols to keep, how symbols are grouped into
//! batch requests, how many batches may be in flight, and how responses
//! become one long-form table.

use crate::data::calendar::{accepted_day, iso_date_text, iso_text_day, Date};
use crate::data::table::{merge_present, merged_names, present_tables, stacked_rows, Table};
use crate::error::Error;
use crate::text::{
    contains_text, has_infix, is_numeric, is_numeric_text, join, joined, same_text, texts,
};
use vstd::prelude::*;
use vstd::string::StringExecFns;

verus! {

/// How many symbols one batch request carries at most.
pub const BATCH_SIZE: usize = 5;

/// How many batch requests may be in flight at once.
pub const MAX_CONCURRENT_BATCHES: usize = 4;

/// The settings of the metrics provider's client.
#[derive(Clone, Debug, PartialEq, Eq)]
pub struct ArtemisClient {
    /// The bearer token of the provider.
    pub api_key: String,
    /// The base address of the provider.
    pub base_url: String,
}

/// Whether a listed symbol is kept: it is no equity (its text has no `eq-`)
/// and none of the fiat and stablecoin identifiers `usd`, `M` and `eurc`.
pub open spec fn is_crypto_symbol(s: Seq<char>) -> bool {
    &&& !has_infix(s, "eq-"@)
    &&& s != "usd"@
    &&& s != "M"@
    &&& s != "eurc"@
}

/// The symbols kept from a listing, in the order of the listing: an entry
/// without a symbol is passed over, and so is a symbol that is not kept.
pub open spec fn crypto_symbols(assets: Seq<Option<String>>) -> Seq<Seq<char>>
    decreases assets.len(),
{
    if assets.len() == 0 {
        Seq::empty()
    } else {
        let before = crypto_symbols(assets.drop_last());
        match assets.last() {
            Some(s) if is_crypto_symbol(s@) => before.push(s@),
            _ => before,
        }
    }
}

/// Whether a listed symbol is kept.
pub fn keeps_symbol(symbol: &str) -> (r: bool)
    ensures
        r == is_crypto_symbol(symbol@),
{
    !contains_text(symbol, "eq-") && !same_text(symbol, "usd") && !same_text(symbol, "M")
        && !same_text(symbol, "eurc")
}

/// Filters a listing of the provider down to the symbols that are kept.
pub fn filter_crypto_symbols(assets: &Vec<Option<String>>) -> (symbols: Vec<String>)
    ensures
        texts(symbols@) == crypto_symbols(assets@),
{
    let mut symbols: Vec<String> = Vec::new();
    let mut i: usize = 0;
    assert(assets@.take(0) =~= Seq::empty());
    assert(texts(symbols@) =~= Seq::empty());
    while i < assets.len()
        invariant
            i <= assets.len(),
            texts(symbols@) == crypto_symbols(assets@.take(i as int)),
        decreases assets.len() - i,
    {
        let ghost before = texts(symbols@);
        assert(assets@.take(i + 1).drop_last() =~= assets@.take(i as int));
        assert(assets@.take(i + 1).last() == assets@[i as int]);
        match &assets[i] {
            Some(s) => {
                if keeps_symbol(s.as_str()) {
                    symbols.push(s.clone());
                    assert(texts(symbols@) =~= before.push(s@));
                }
            },
            None => {},
        }
        i += 1;
    }
    assert(assets@.take(i as int) =~= assets@);
    symbols
}

/// One request to the provider: some symbols, every metric, one date range.
#[derive(Clone, Debug, PartialEq, Eq)]
pub struct BatchRequest {
    /// The symbols of the batch.
    pub symbols: Vec<String>,
    /// The names of the metrics, separated by commas.
    pub metrics: String,
    /// The first day, written as `YYYY-MM-DD`.
    pub start_date: String,
    /// The last day, written as `YYYY-MM-DD`.
    pub end_date: String,
}

/// How many batches `n` symbols make: `n` divided by the batch size, rounded up.
pub open spec fn batch_count(n: int) -> int {
    (n + BATCH_SIZE - 1) / BATCH_SIZE as int
}

/// Where batch `k` of `n` symbols ends.
pub open spec fn batch_end(n: int, k: int) -> int {
    if (k + 1) * BATCH_SIZE <= n {
        (k + 1) * BATCH_SIZE
    } else {
        n
    }
}

/// The symbols of batch `k`.
pub open spec fn batch_symbols(symbols: Seq<Seq<char>>, k: int) -> Seq<Seq<char>> {
    symbols.subrange(k * BATCH_SIZE, batch_end(symbols.len() as int, k))
}

/// Whether `batches` are the requests for the given symbols, metrics and dates.
pub open spec fn is_batch_plan(
    batches: Seq<BatchRequest>,
    symbols: Seq<Seq<char>>,
    metrics: Seq<Seq<char>>,
    start: int,
    end: int,
) -> bool {
    &&& batches.len() == batch_count(symbols.len() as int)
    &&& forall|k: int|
        0 <= k < batches.len() ==> {
            &&& texts((#[trigger] batches[k]).symbols@) == batch_symbols(symbols, k)
            &&& batches[k].metrics@ == joined(metrics, ","@)
            &&& batches[k].start_date@ == iso_date_text(start)
            &&& batches[k].end_date@ == iso_date_text(end)
        }
}

/// The symbols of the first `k` batches, batch after batch.
pub open spec fn batched_symbols(symbols: Seq<Seq<char>>, k: int) -> Seq<Seq<char>>
    decreases k,
{
    if k <= 0 {
        Seq::empty()
    } else {
        batched_symbols(symbols, k - 1) + batch_symbols(symbols, k - 1)
    }
}

/// The first `k` batches hold the symbols before batch `k`, in order.
proof fn lemma_batched_prefix(symbols: Seq<Seq<char>>, k: int)
    requires
        0 <= k < batch_count(symbols.len() as int),
    ensures
        batched_symbols(symbols, k) == symbols.take(k * BATCH_SIZE),
    decreases k,
{
    if k > 0 {
        lemma_batched_prefix(symbols, k - 1);
        assert(symbols.take((k - 1) * BATCH_SIZE) + batch_symbols(symbols, k - 1) =~= symbols.take(
            k * BATCH_SIZE,
        ));
    } else {
        assert(symbols.take(0) =~= Seq::empty());
    }
}

/// The batches of a list partition it: there are as many as the number of
/// symbols divided by the batch size, rounded up; each holds between one
/// symbol and a full batch; and batch after batch they hold every symbol
/// once, in order.
pub proof fn lemma_batches_partition(symbols: Seq<Seq<char>>)
    ensures
        batch_count(symbols.len() as int) * BATCH_SIZE >= symbols.len(),
        (batch_count(symbols.len() as int) - 1) * BATCH_SIZE < symbols.len() || symbols.len() == 0,
        symbols.len() > 0 ==> batch_count(symbols.len() as int) >= 1,
        symbols.len() <= BATCH_SIZE ==> batch_count(symbols.len() as int) <= 1,
        forall|k: int|
            0 <= k < batch_count(symbols.len() as int) ==> 1 <= (#[trigger] batch_symbols(
                symbols,
                k,
            )).len() <= BATCH_SIZE,
        batched_symbols(symbols, batch_count(symbols.len() as int)) == symbols,
{
    let n = batch_count(symbols.len() as int);
    if symbols.len() > 0 {
        lemma_batched_prefix(symbols, n - 1);
        assert(symbols.take((n - 1) * BATCH_SIZE) + batch_symbols(symbols, n - 1) =~= symbols);
    } else {
        assert(batched_symbols(symbols, 0) =~= symbols);
    }
}

impl ArtemisClient {
    /// A client for the provider at `base_url` that presents `api_key`.
    pub fn new(api_key: String, base_url: String) -> (client: ArtemisClient)
        ensures
            client.api_key == api_key,
            client.base_url == base_url,
    {
        ArtemisClient { api_key, base_url }
    }

    /// The address that lists the symbols.
    pub fn symbols_url(&self) -> (url: String)
        ensures
            url@ == self.base_url@ + "/asset/symbols"@,
    {
        self.base_url.clone().concat("/asset/symbols")
    }

    /// The address that serves metrics.
    pub fn metrics_url(&self) -> (url: String)
        ensures
            url@ == self.base_url@ + "/metrics"@,
    {
        self.base_url.clone().concat("/metrics")
    }

    /// The value of the authorization header: the bearer token.
    pub fn authorization(&self) -> (value: String)
        ensures
            value@ == "Bearer "@ + self.api_key@,
    {
        String::from_str("Bearer ").concat(self.api_key.as_str())
    }

    /// Groups the symbols into batches of at most `BATCH_SIZE` and writes one
    /// request for each batch, with every metric and the date range. Without
    /// a symbol or without a metric the input is refused.
    pub fn plan_batches(
        &self,
        symbols: &Vec<String>,
        metrics: &Vec<String>,
        start_date: Date,
        end_date: Date,
    ) -> (r: Result<Vec<BatchRequest>, Error>)
        ensures
            match r {
                Ok(batches) => {
                    &&& symbols@.len() > 0
                    &&& metrics@.len() > 0
                    &&& is_batch_plan(
                        batches@,
                        texts(symbols@),
                        texts(metrics@),
                        start_date.day_number(),
                        end_date.day_number(),
                    )
                },
                Err(e) => {
                    &&& e is InvalidInput
                    &&& symbols@.len() == 0 || metrics@.len() == 0
                    &&& e.detail() == if symbols@.len() == 0 {
                        "No symbols provided"@
                    } else {
                        "No metrics provided"@
                    }
                },
            },
    {
        if symbols.len() == 0 {
            return Err(Error::InvalidInput(String::from_str("No symbols provided")));
        }
        if metrics.len() == 0 {
            return Err(Error::InvalidInput(String::from_str("No metrics provided")));
        }
        let metric_list = join(metrics, ",");
        let start_text = start_date.to_iso();
        let end_text = end_date.to_iso();
        let n: usize = symbols.len();
        let mut batches: Vec<BatchRequest> = Vec::new();
        let mut from: usize = 0;
        while from < n
            invariant
                n == symbols@.len(),
                from <= n + BATCH_SIZE,
                from == batches@.len() * BATCH_SIZE,
                from < n ==> batches@.len() < batch_count(n as int),
                from >= n ==> batches@.len() == batch_count(n as int),
                metric_list@ == joined(texts(metrics@), ","@),
                start_text@ == iso_date_text(start_date.day_number()),
                end_text@ == iso_date_text(end_date.day_number()),
                forall|k: int|
                    0 <= k < batches@.len() ==> {
                        &&& texts((#[trigger] batches@[k]).symbols@) == batch_symbols(
                            texts(symbols@),
                            k,
                        )
                        &&& batches@[k].metrics@ == metric_list@
                        &&& batches@[k].start_date@ == start_text@
                        &&& batches@[k].end_date@ == end_text@
                    },
            decreases n + BATCH_SIZE - from,
        {
            let to: usize = if n - from >= BATCH_SIZE { from + BATCH_SIZE } else { n };
            let mut group: Vec<String> = Vec::new();
            let mut i: usize = from;
            while i < to
                invariant
                    from <= i <= to <= n,
                    n == symbols@.len(),
                    texts(group@) == texts(symbols@).subrange(from as int, i as int),
                decreases to - i,
            {
                let ghost before = texts(group@);
                group.push(symbols[i].clone());
                assert(texts(group@) =~= before.push(symbols@[i as int]@));
                assert(texts(symbols@).subrange(from as int, i + 1) =~= texts(symbols@).subrange(
                    from as int,
                    i as int,
                ).push(symbols@[i as int]@));
                i += 1;
            }
            batches.push(
                BatchRequest {
                    symbols: group,
                    metrics: metric_list.clone(),
                    start_date: start_text.clone(),
                    end_date: end_text.clone(),
                },
            );
            from = from + BATCH_SIZE;
        }
        Ok(batches)
    }
}

/// One observation as the provider sends it.
#[derive(Clone, Debug, PartialEq, Eq)]
pub struct MetricDataPoint {
    /// The day of the observation, written as `YYYY-MM-DD`.
    pub date: String,
    /// The observed value, a numeric text.
    pub value: String,
}

/// The observations of one metric of one asset.
#[derive(Clone, Debug, PartialEq, Eq)]
pub struct MetricSeries {
    /// The name of the metric.
    pub metric: String,
    /// The observations, in the order received.
    pub points: Vec<MetricDataPoint>,
}

/// Everything the provider sent for one asset.
#[derive(Clone, Debug, PartialEq, Eq)]
pub struct AssetMetrics {
    /// The symbol of the asset.
    pub asset: String,
    /// One series for each metric.
    pub metrics: Vec<MetricSeries>,
}

/// One row of the long-form table: a day, an asset, a metric and its value.
#[derive(Clone, Debug, PartialEq, Eq)]
pub struct MetricRecord {
    /// The day of the observation.
    pub date: Date,
    /// The symbol of the asset.
    pub asset: String,
    /// The name of the metric.
    pub metric: String,
    /// The observed value, a numeric text.
    pub value: String,
}

/// One observation with its asset and metric, all as texts.
pub struct RawRecord {
    /// The day, as the provider wrote it.
    pub date: Seq<char>,
    /// The symbol of the asset.
    pub asset: Seq<char>,
    /// The name of the metric.
    pub metric: Seq<char>,
    /// The value, as the provider wrote it.
    pub value: Seq<char>,
}

/// The names of the columns of the long-form table.
pub open spec fn metric_columns() -> Seq<Seq<char>> {
    seq!["date"@, "asset"@, "metric"@, "value"@]
}

/// The observations of one series, in order.
pub open spec fn series_records(asset: Seq<char>, series: MetricSeries) -> Seq<RawRecord> {
    Seq::new(
        series.points@.len(),
        |i: int|
            RawRecord {
                date: series.points@[i].date@,
                asset,
                metric: series.metric@,
                value: series.points@[i].value@,
            },
    )
}

/// The observations of the first `upto` series of an asset, series after series.
pub open spec fn asset_records(asset: AssetMetrics, upto: int) -> Seq<RawRecord>
    decreases upto,
{
    if upto <= 0 {
        Seq::empty()
    } else {
        asset_records(asset, upto - 1) + series_records(asset.asset@, asset.metrics@[upto - 1])
    }
}

/// The observations of a response, asset after asset.
pub open spec fn response_records(assets: Seq<AssetMetrics>) -> Seq<RawRecord>
    decreases assets.len(),
{
    if assets.len() == 0 {
        Seq::empty()
    } else {
        response_records(assets.drop_last()) + asset_records(
            assets.last(),
            assets.last().metrics@.len() as int,
        )
    }
}

/// Whether an observation can be read: its date is a calendar day and its
/// value a numeric text.
pub open spec fn record_readable(raw: RawRecord) -> bool {
    accepted_day(iso_text_day(raw.date)) is Some && is_numeric(raw.value)
}

/// Whether every observation can be read.
pub open spec fn all_readable(raws: Seq<RawRecord>) -> bool {
    forall|i: int| 0 <= i < raws.len() ==> record_readable(#[trigger] raws[i])
}

/// Whether `row` is what the observation `raw` says.
pub open spec fn is_record_of(row: MetricRecord, raw: RawRecord) -> bool {
    &&& accepted_day(iso_text_day(raw.date)) == Some(row.date.day_number())
    &&& row.asset@ == raw.asset
    &&& row.metric@ == raw.metric
    &&& row.value@ == raw.value
}

/// Whether `rows` are what the observations say, one for one.
pub open spec fn rows_match(rows: Seq<MetricRecord>, raws: Seq<RawRecord>) -> bool {
    &&& rows.len() == raws.len()
    &&& forall|i: int| 0 <= i < rows.len() ==> is_record_of(#[trigger] rows[i], raws[i])
}

/// Whether `after` is `before` followed by rows that match `raws`.
pub open spec fn extends_by(
    after: Seq<MetricRecord>,
    before: Seq<MetricRecord>,
    raws: Seq<RawRecord>,
) -> bool {
    &&& after.len() == before.len() + raws.len()
    &&& after.take(before.len() as int) == before
    &&& rows_match(after.skip(before.len() as int), raws)
}

/// Extending twice is extending by both runs of observations.
proof fn lemma_extends_twice(
    a: Seq<MetricRecord>,
    b: Seq<MetricRecord>,
    c: Seq<MetricRecord>,
    first: Seq<RawRecord>,
    second: Seq<RawRecord>,
)
    requires
        extends_by(b, a, first),
        extends_by(c, b, second),
    ensures
        extends_by(c, a, first + second),
{
    assert(c.take(a.len() as int) =~= b.take(a.len() as int)) by {
        assert(c.take(b.len() as int) == b);
        assert forall|i: int| 0 <= i < a.len() implies c.take(a.len() as int)[i] == b.take(
            a.len() as int,
        )[i] by {
            assert(c.take(b.len() as int)[i] == c[i]);
        }
    }
    let tail = c.skip(a.len() as int);
    assert forall|i: int| 0 <= i < tail.len() implies is_record_of(
        #[trigger] tail[i],
        (first + second)[i],
    ) by {
        if i < first.len() {
            assert(c.take(b.len() as int)[a.len() + i] == c[a.len() + i]);
            assert(b.skip(a.len() as int)[i] == b[a.len() + i]);
        } else {
            assert(c.skip(b.len() as int)[i - first.len()] == c[a.len() + i]);
        }
    }
}

/// Reads the observations of one series onto the end of `rows`. Returns
/// whether every observation could be read; if not, `rows` is of no use.
fn read_series(asset: &str, series: &MetricSeries, rows: &mut Vec<MetricRecord>) -> (ok: bool)
    ensures
        ok == all_readable(series_records(asset@, *series)),
        ok ==> extends_by(final(rows)@, old(rows)@, series_records(asset@, *series)),
{
    let ghost before = rows@;
    let ghost raws = series_records(asset@, *series);
    let mut i: usize = 0;
    assert(rows@.take(before.len() as int) =~= before);
    while i < series.points.len()
        invariant
            i <= series.points@.len(),
            raws == series_records(asset@, *series),
            rows@.len() == before.len() + i,
            rows@.take(before.len() as int) == before,
            forall|k: int| 0 <= k < i ==> record_readable(#[trigger] raws[k]),
            forall|j: int|
                before.len() <= j < rows@.len() ==> is_record_of(
                    #[trigger] rows@[j],
                    raws[j - before.len()],
                ),
        decreases series.points@.len() - i,
    {
        let point = &series.points[i];
        let ghost so_far = rows@;
        let date = match Date::parse_iso(point.date.as_str()) {
            Some(d) => d,
            None => {
                assert(!record_readable(raws[i as int]));
                return false;
            },
        };
        if !is_numeric_text(point.value.as_str()) {
            assert(!record_readable(raws[i as int]));
            return false;
        }
        rows.push(
            MetricRecord {
                date,
                asset: String::from_str(asset),
                metric: series.metric.clone(),
                value: point.value.clone(),
            },
        );
        assert(rows@.take(before.len() as int) =~= so_far.take(before.len() as int));
        assert(forall|j: int| 0 <= j < so_far.len() ==> #[trigger] rows@[j] == so_far[j]);
        i += 1;
    }
    assert forall|k: int| 0 <= k < raws.len() implies is_record_of(
        #[trigger] rows@.skip(before.len() as int)[k],
        raws[k],
    ) by {
        assert(rows@.skip(before.len() as int)[k] == rows@[before.len() + k]);
    }
    true
}

/// Reads the observations of one asset onto the end of `rows`. Returns
/// whether every observation could be read; if not, `rows` is of no use.
fn read_asset(asset: &AssetMetrics, rows: &mut Vec<MetricRecord>) -> (ok: bool)
    ensures
        ok == all_readable(asset_records(*asset, asset.metrics@.len() as int)),
        ok ==> extends_by(
            final(rows)@,
            old(rows)@,
            asset_records(*asset, asset.metrics@.len() as int),
        ),
{
    let ghost before = rows@;
    let mut m: usize = 0;
    assert(rows@.take(before.len() as int) =~= before);
    assert(rows@.skip(before.len() as int) =~= Seq::empty());
    while m < asset.metrics.len()
        invariant
            m <= asset.metrics@.len(),
            all_readable(asset_records(*asset, m as int)),
            extends_by(rows@, before, asset_records(*asset, m as int)),
        decreases asset.metrics@.len() - m,
    {
        let ghost so_far = rows@;
        let ghost done = asset_records(*asset, m as int);
        let ghost more = series_records(asset.asset@, asset.metrics@[m as int]);
        assert(asset_records(*asset, m + 1) == done + more);
        let ok = read_series(asset.asset.as_str(), &asset.metrics[m], rows);
        if !ok {
            proof {
                let bad = choose|i: int| 0 <= i < more.len() && !record_readable(#[trigger] more[i]);
                lemma_unreadable_later(*asset, m + 1, asset.metrics@.len() as int, done.len() + bad);
            }
            return false;
        }
        proof {
            lemma_extends_twice(before, so_far, rows@, done, more);
            assert forall|i: int| 0 <= i < (done + more).len() implies record_readable(
                #[trigger] (done + more)[i],
            ) by {
                if i < done.len() {
                    assert((done + more)[i] == done[i]);
                } else {
                    assert((done + more)[i] == more[i - done.len()]);
                }
            }
        }
        m += 1;
    }
    true
}

/// An observation among the first series of an asset is among those of more series.
proof fn lemma_unreadable_later(asset: AssetMetrics, upto: int, all: int, bad: int)
    requires
        0 <= upto <= all,
        0 <= bad < asset_records(asset, upto).len(),
        !record_readable(asset_records(asset, upto)[bad]),
    ensures
        !all_readable(asset_records(asset, all)),
    decreases all - upto,
{
    if upto < all {
        assert(asset_records(asset, upto + 1)[bad] == asset_records(asset, upto)[bad]);
        lemma_unreadable_later(asset, upto + 1, all, bad);
    }
}

/// The columns of the long-form table.
pub fn metric_schema() -> (columns: Vec<String>)
    ensures
        texts(columns@) == metric_columns(),
{
    let mut columns: Vec<String> = Vec::new();
    columns.push(String::from_str("date"));
    columns.push(String::from_str("asset"));
    columns.push(String::from_str("metric"));
    columns.push(String::from_str("value"));
    assert(texts(columns@) =~= metric_columns());
    columns
}

/// Flattens the response to one batch into long-form rows, asset after asset,
/// series after series, observation after observation. A response without
/// any observation is a provider failure; an observation that cannot be read
/// is a parse error.
pub fn flatten_response(assets: &Vec<AssetMetrics>) -> (r: Result<Table<MetricRecord>, Error>)
    ensures
        match r {
            Ok(t) => {
                &&& response_records(assets@).len() > 0
                &&& all_readable(response_records(assets@))
                &&& t.column_names() == metric_columns()
                &&& rows_match(t.rows@, response_records(assets@))
            },
            Err(e) => if response_records(assets@).len() == 0 {
                e is DataFetch && e.detail() == "No data points in Artemis API response"@
            } else {
                e is Parse && !all_readable(response_records(assets@))
            },
        },
{
    let mut rows: Vec<MetricRecord> = Vec::new();
    let mut a: usize = 0;
    assert(assets@.take(0) =~= Seq::empty());
    assert(rows@.skip(0) =~= rows@);
    while a < assets.len()
        invariant
            a <= assets@.len(),
            all_readable(response_records(assets@.take(a as int))),
            rows_match(rows@, response_records(assets@.take(a as int))),
        decreases assets@.len() - a,
    {
        let ghost so_far = rows@;
        let ghost done = response_records(assets@.take(a as int));
        let ghost more = asset_records(assets@[a as int], assets@[a as int].metrics@.len() as int);
        assert(assets@.take(a + 1).drop_last() =~= assets@.take(a as int));
        assert(assets@.take(a + 1).last() == assets@[a as int]);
        assert(response_records(assets@.take(a + 1)) == done + more);
        let ok = read_asset(&assets[a], &mut rows);
        if !ok {
            proof {
                let bad = choose|i: int| 0 <= i < more.len() && !record_readable(#[trigger] more[i]);
                lemma_unreadable_response(assets@, a + 1, done.len() + bad);
            }
            return Err(Error::Parse(String::from_str("Unreadable data point in Artemis API response")));
        }
        proof {
            assert(so_far.skip(0) =~= so_far);
            assert(so_far.take(0) =~= Seq::<MetricRecord>::empty());
            assert(extends_by(so_far, Seq::<MetricRecord>::empty(), done));
            lemma_extends_twice(Seq::<MetricRecord>::empty(), so_far, rows@, done, more);
            assert(rows@.skip(0) =~= rows@);
            assert forall|i: int| 0 <= i < (done + more).len() implies record_readable(
                #[trigger] (done + more)[i],
            ) by {
                if i < done.len() {
                    assert((done + more)[i] == done[i]);
                } else {
                    assert((done + more)[i] == more[i - done.len()]);
                }
            }
        }
        a += 1;
    }
    assert(assets@.take(a as int) =~= assets@);
    if rows.len() == 0 {
        return Err(Error::DataFetch(String::from_str("No data points in Artemis API response")));
    }
    Ok(Table { columns: metric_schema(), rows })
}

/// An unreadable observation among the first assets of a response is among
/// those of the whole response.
proof fn lemma_unreadable_response(assets: Seq<AssetMetrics>, upto: int, bad: int)
    requires
        0 <= upto <= assets.len(),
        0 <= bad < response_records(assets.take(upto)).len(),
        !record_readable(response_records(assets.take(upto))[bad]),
    ensures
        !all_readable(response_records(assets)),
        response_records(assets).len() > 0,
    decreases assets.len() - upto,
{
    if upto < assets.len() {
        assert(assets.take(upto + 1).drop_last() =~= assets.take(upto));
        assert(response_records(assets.take(upto + 1))[bad] == response_records(
            assets.take(upto),
        )[bad]);
        lemma_unreadable_response(assets, upto + 1, bad);
    } else {
        assert(assets.take(upto) =~= assets);
    }
}

/// The outcomes of the batches with the failures blanked out.
pub open spec fn surviving<R>(outcomes: Seq<Result<Table<R>, Error>>) -> Seq<Option<Table<R>>> {
    Seq::new(
        outcomes.len(),
        |i: int|
            match outcomes[i] {
                Ok(t) => Some(t),
                Err(_) => None,
            },
    )
}

/// Puts the tables of the batches that succeeded into one table, in the
/// order of the batches. A failed batch is dropped; if no batch succeeded the
/// whole fetch has failed.
pub fn collect_batches(outcomes: Vec<Result<Table<MetricRecord>, Error>>) -> (r: Result<
    Table<MetricRecord>,
    Error,
>)
    ensures
        match r {
            Ok(t) => {
                &&& exists|i: int| 0 <= i < outcomes@.len() && (#[trigger] outcomes@[i]) is Ok
                &&& t.column_names() == merged_names(
                    present_tables(surviving(outcomes@)),
                    metric_columns(),
                )
                &&& t.rows@ == stacked_rows(present_tables(surviving(outcomes@)), t.column_names())
            },
            Err(e) => {
                &&& forall|i: int| 0 <= i < outcomes@.len() ==> (#[trigger] outcomes@[i]) is Err
                &&& e is DataFetch
                &&& e.detail() == "All batches failed, no data retrieved"@
            },
        },
{
    let ghost all = outcomes@;
    let mut rest = outcomes;
    let mut reversed: Vec<Option<Table<MetricRecord>>> = Vec::new();
    let mut any: bool = false;
    while rest.len() > 0
        invariant
            rest@.len() + reversed@.len() == all.len(),
            rest@ == all.take(rest@.len() as int),
            forall|k: int|
                0 <= k < reversed@.len() ==> #[trigger] reversed@[k] == surviving(all)[all.len() - 1
                    - k],
            any <==> exists|i: int| rest@.len() <= i < all.len() && (#[trigger] all[i]) is Ok,
        decreases rest.len(),
    {
        let ghost before = rest@;
        let outcome = rest.pop().unwrap();
        assert(outcome == all[before.len() - 1]);
        assert(rest@ =~= all.take(rest@.len() as int));
        match outcome {
            Ok(t) => {
                reversed.push(Some(t));
                any = true;
                assert(all[rest@.len() as int] is Ok);
            },
            Err(_) => {
                reversed.push(None);
                if any {
                    let ghost w = choose|i: int|
                        before.len() <= i < all.len() && (#[trigger] all[i]) is Ok;
                    assert(all[w] is Ok);
                }
            },
        }
    }
    if !any {
        return Err(Error::DataFetch(String::from_str("All batches failed, no data retrieved")));
    }
    let mut parts: Vec<Option<Table<MetricRecord>>> = Vec::new();
    while reversed.len() > 0
        invariant
            parts@.len() + reversed@.len() == all.len(),
            forall|k: int|
                0 <= k < reversed@.len() ==> #[trigger] reversed@[k] == surviving(all)[all.len() - 1
                    - k],
            forall|k: int| 0 <= k < parts@.len() ==> #[trigger] parts@[k] == surviving(all)[k],
        decreases reversed.len(),
    {
        let part = reversed.pop().unwrap();
        parts.push(part);
    }
    assert(parts@ =~= surviving(all));
    Ok(merge_present(parts, metric_schema()))
}

/// The scheduler of the batch requests: how many batches there are, how
/// many have been sent, and how many of those have not come back.
#[derive(Debug)]
pub struct BatchScheduler {
    total: usize,
    sent: usize,
    in_flight: usize,
}

impl BatchScheduler {
    #[verifier::type_invariant]
    spec fn within_ceiling(self) -> bool {
        &&& self.in_flight <= MAX_CONCURRENT_BATCHES
        &&& self.in_flight <= self.sent <= self.total
    }

    /// How many batches there are.
    pub closed spec fn total(self) -> int {
        self.total as int
    }

    /// How many batches have been sent.
    pub closed spec fn sent(self) -> int {
        self.sent as int
    }

    /// How many batches have been sent and have not come back.
    pub closed spec fn in_flight(self) -> int {
        self.in_flight as int
    }

    /// How many batches have come back.
    pub open spec fn finished(self) -> int {
        self.sent() - self.in_flight()
    }

    /// What holds of every scheduler: never more batches are in flight than
    /// the ceiling allows, and no more have been sent than there are.
    pub open spec fn wf(self) -> bool {
        &&& 0 <= self.in_flight() <= MAX_CONCURRENT_BATCHES
        &&& self.in_flight() <= self.sent() <= self.total()
    }

    /// Whether the next batch may be sent now: one is left, and a slot is free.
    pub open spec fn may_send(self) -> bool {
        self.sent() < self.total() && self.in_flight() < MAX_CONCURRENT_BATCHES
    }

    /// A scheduler for `total` batches, none of them sent.
    pub fn new(total: usize) -> (s: BatchScheduler)
        ensures
            s.wf(),
            s.total() == total,
            s.sent() == 0,
            s.in_flight() == 0,
    {
        BatchScheduler { total, sent: 0, in_flight: 0 }
    }

    /// Sends the next batch if one is left and a slot is free, and gives its
    /// index; otherwise nothing changes and the batch has to wait.
    pub fn next_batch(self) -> (r: (BatchScheduler, Option<usize>))
        ensures
            self.wf(),
            r.0.wf(),
            r.0.total() == self.total(),
            match r.1 {
                Some(index) => {
                    &&& self.may_send()
                    &&& index == self.sent()
                    &&& r.0.sent() == self.sent() + 1
                    &&& r.0.in_flight() == self.in_flight() + 1
                },
                None => {
                    &&& !self.may_send()
                    &&& r.0.sent() == self.sent()
                    &&& r.0.in_flight() == self.in_flight()
                },
            },
    {
        proof {
            use_type_invariant(&self);
        }
        if self.sent < self.total && self.in_flight < MAX_CONCURRENT_BATCHES {
            let index = self.sent;
            (
                BatchScheduler {
                    total: self.total,
                    sent: self.sent + 1,
                    in_flight: self.in_flight + 1,
                },
                Some(index),
            )
        } else {
            (self, None)
        }
    }

    /// Frees the slot of a batch that has come back, whether it succeeded or
    /// failed. Without a batch in flight nothing changes.
    pub fn release(self) -> (next: BatchScheduler)
        ensures
            self.wf(),
            next.wf(),
            next.total() == self.total(),
            next.sent() == self.sent(),
            next.in_flight() == if self.in_flight() > 0 {
                self.in_flight() - 1
            } else {
                0
            },
    {
        proof {
            use_type_invariant(&self);
        }
        if self.in_flight > 0 {
            BatchScheduler { total: self.total, sent: self.sent, in_flight: self.in_flight - 1 }
        } else {
            self
        }
    }

    /// How many batches are in flight.
    pub fn outstanding(&self) -> (n: usize)
        ensures
            n == self.in_flight(),
            n <= MAX_CONCURRENT_BATCHES,
    {
        proof {
            use_type_invariant(self);
        }
        self.in_flight
    }

    /// How many batches have been sent.
    pub fn dispatched(&self) -> (n: usize)
        ensures
            n == self.sent(),
            n <= self.total(),
    {
        proof {
            use_type_invariant(self);
        }
        self.sent
    }

    /// Whether every batch has been sent and has come back.
    pub fn is_complete(&self) -> (r: bool)
        ensures
            r == (self.sent() == self.total() && self.in_flight() == 0),
    {
        self.sent == self.total && self.in_flight == 0
    }
}

} // verus!

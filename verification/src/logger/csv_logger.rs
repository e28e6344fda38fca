//! Framing of the run log and of the return series as comma-separated
//! records. The bytes are written and read by the csv crate; which rows are
//! written and what the rows read mean is decided here.

use crate::error::{Error, ErrorView};
use crate::logger::csv_codec::{
    csv_bytes, csv_records, finish_writer, new_writer, read_records,
    record_texts, write_row, written_records,
};
use crate::models::performance::{
    opt_count, opt_ref_text, opt_slice, opt_text, FactorPerformance, RunView,
};
use crate::text::{
    decimal_text, format_decimal, is_numeric, is_numeric_text, lemma_decimal_text,
    lemma_empty_not_numeric, owned, parse_u64,
    parse_unsigned, same_text, texts,
};
use vstd::prelude::*;
use vstd::string::StringExecFns;

verus! {

/// Writes the records with the csv crate and gives the bytes.
fn encode_records(records: &Vec<Vec<String>>) -> (r: Result<Vec<u8>, Error>)
    requires
        forall|i: int| 0 <= i < records@.len() ==> (#[trigger] records@[i])@.len() > 0,
        forall|i: int|
            0 <= i < records@.len() ==> (#[trigger] records@[i])@.len() == records@[0]@.len(),
    ensures
        r is Ok,
        r->Ok_0@ == csv_bytes(record_texts(records@)),
{
    let mut w = new_writer();
    let mut i: usize = 0;
    assert(record_texts(records@).take(0) =~= Seq::empty());
    while i < records.len()
        invariant
            i <= records@.len(),
            forall|k: int| 0 <= k < records@.len() ==> (#[trigger] records@[k])@.len() > 0,
            forall|k: int|
                0 <= k < records@.len() ==> (#[trigger] records@[k])@.len() == records@[0]@.len(),
            written_records(w) == record_texts(records@).take(i as int),
        decreases records@.len() - i,
    {
        assert(texts(records@[i as int]@).len() == records@[i as int]@.len());
        assert(i > 0 ==> record_texts(records@).take(i as int)[0] == texts(records@[0]@));
        match write_row(&mut w, &records[i]) {
            Ok(_) => {},
            Err(message) => {
                return Err(Error::Csv(message));
            },
        }
        assert(record_texts(records@).take(i + 1) =~= record_texts(records@).take(i as int).push(
            texts(records@[i as int]@),
        ));
        i += 1;
    }
    assert(record_texts(records@).take(i as int) =~= record_texts(records@));
    match finish_writer(w) {
        Some(bytes) => Ok(bytes),
        None => Err(Error::Csv(String::from_str("the records could not be written out"))),
    }
}

/// The names of the columns of the run log, in order.
pub open spec fn run_header() -> Seq<Seq<char>> {
    seq![
        "run_id"@,
        "factor"@,
        "breakpoint"@,
        "min_assets"@,
        "weighting_method"@,
        "cumulative_returns"@,
        "annualized_return"@,
        "years"@,
        "sharpe_ratio"@,
        "sortino_ratio"@,
        "long_only_returns"@,
        "short_only_returns"@,
        "start_date"@,
        "end_date"@,
    ]
}

/// The cell of an optional text: the text, or nothing where it is absent.
pub open spec fn cell_or_empty(o: Option<Seq<char>>) -> Seq<char> {
    match o {
        Some(t) => t,
        None => Seq::empty(),
    }
}

/// The cell of an optional count: its decimal notation, or nothing where it
/// is absent.
pub open spec fn count_text(o: Option<nat>) -> Seq<char> {
    match o {
        Some(n) => decimal_text(n),
        None => Seq::empty(),
    }
}

/// The row that stores a run.
pub open spec fn run_row(v: RunView) -> Seq<Seq<char>> {
    seq![
        v.run_id,
        v.factor,
        cell_or_empty(v.breakpoint),
        count_text(v.min_assets),
        cell_or_empty(v.weighting_method),
        cell_or_empty(v.cumulative_returns),
        cell_or_empty(v.annualized_return),
        cell_or_empty(v.years),
        cell_or_empty(v.sharpe_ratio),
        cell_or_empty(v.sortino_ratio),
        cell_or_empty(v.long_only_returns),
        cell_or_empty(v.short_only_returns),
        cell_or_empty(v.start_date),
        cell_or_empty(v.end_date),
    ]
}

/// The rows that one append writes: the row of the run, after the header
/// where the file is new.
pub open spec fn appended_rows(file_exists: bool, v: RunView) -> Seq<Seq<Seq<char>>> {
    if file_exists {
        seq![run_row(v)]
    } else {
        seq![run_header(), run_row(v)]
    }
}

/// The rows of a log to which the given runs were appended one after
/// another, the first of them to a file that did not exist.
pub open spec fn log_rows(runs: Seq<RunView>) -> Seq<Seq<Seq<char>>>
    decreases runs.len(),
{
    if runs.len() == 0 {
        Seq::empty()
    } else {
        log_rows(runs.drop_last()) + appended_rows(runs.len() > 1, runs.last())
    }
}

/// The index of the column with the given name: that of the last such column
/// where there are several, `None` where there is none.
pub open spec fn column_of(header: Seq<Seq<char>>, name: Seq<char>) -> Option<int>
    decreases header.len(),
{
    if header.len() == 0 {
        None
    } else if header.last() == name {
        Some(header.len() - 1)
    } else {
        column_of(header.drop_last(), name)
    }
}

/// The cell of a row under the column with the given name, if the header has
/// the column and the row reaches it.
pub open spec fn cell(header: Seq<Seq<char>>, row: Seq<Seq<char>>, name: Seq<char>) -> Option<
    Seq<char>,
> {
    match column_of(header, name) {
        Some(i) => if i < row.len() {
            Some(row[i])
        } else {
            None
        },
        None => None,
    }
}

/// A statistic read from a cell: the text, if there is a cell and it holds a
/// numeric text; absent otherwise.
pub open spec fn numeric_cell(c: Option<Seq<char>>) -> Option<Seq<char>> {
    match c {
        Some(t) => if is_numeric(t) {
            Some(t)
        } else {
            None
        },
        None => None,
    }
}

/// A count read from a cell: the number, if there is a cell and it holds a
/// decimal number that fits the machine; absent otherwise.
pub open spec fn count_cell(c: Option<Seq<char>>) -> Option<nat> {
    match c {
        Some(t) => parse_unsigned(t, usize::MAX as nat),
        None => None,
    }
}

/// An optional text read from a cell: the text, if there is a cell and it is
/// not empty; absent otherwise.
pub open spec fn filled_cell(c: Option<Seq<char>>) -> Option<Seq<char>> {
    match c {
        Some(t) => if t.len() > 0 {
            Some(t)
        } else {
            None
        },
        None => None,
    }
}

/// The run that a row stores under a header. Without a column for the run
/// identifier it is empty; without a column for the factor it is `factor`.
pub open spec fn run_of_row(header: Seq<Seq<char>>, row: Seq<Seq<char>>, factor: Seq<char>) -> RunView {
    RunView {
        run_id: cell_or_empty(cell(header, row, "run_id"@)),
        factor: match cell(header, row, "factor"@) {
            Some(t) => t,
            None => factor,
        },
        breakpoint: numeric_cell(cell(header, row, "breakpoint"@)),
        min_assets: count_cell(cell(header, row, "min_assets"@)),
        weighting_method: filled_cell(cell(header, row, "weighting_method"@)),
        cumulative_returns: numeric_cell(cell(header, row, "cumulative_returns"@)),
        annualized_return: numeric_cell(cell(header, row, "annualized_return"@)),
        years: numeric_cell(cell(header, row, "years"@)),
        sharpe_ratio: numeric_cell(cell(header, row, "sharpe_ratio"@)),
        sortino_ratio: numeric_cell(cell(header, row, "sortino_ratio"@)),
        long_only_returns: numeric_cell(cell(header, row, "long_only_returns"@)),
        short_only_returns: numeric_cell(cell(header, row, "short_only_returns"@)),
        start_date: filled_cell(cell(header, row, "start_date"@)),
        end_date: filled_cell(cell(header, row, "end_date"@)),
    }
}

/// The runs that the rows of a log store: the first row is the header, every
/// other row a run.
pub open spec fn runs_of_rows(rows: Seq<Seq<Seq<char>>>, factor: Seq<char>) -> Seq<RunView> {
    if rows.len() == 0 {
        Seq::empty()
    } else {
        Seq::new((rows.len() - 1) as nat, |i: int| run_of_row(rows[0], rows[i + 1], factor))
    }
}

/// The views of a sequence of runs.
pub open spec fn run_views(runs: Seq<FactorPerformance>) -> Seq<RunView> {
    Seq::new(runs.len(), |i: int| runs[i]@)
}

/// The column that holds a name and is followed by no column with that name
/// is the column of the name.
proof fn lemma_column_found(header: Seq<Seq<char>>, name: Seq<char>, i: int)
    requires
        0 <= i < header.len(),
        header[i] == name,
        forall|j: int| i < j < header.len() ==> header[j] != name,
    ensures
        column_of(header, name) == Some(i),
    decreases header.len(),
{
    if i < header.len() - 1 {
        lemma_column_found(header.drop_last(), name, i);
    }
}

/// Each name of the header of the run log names its own column.
proof fn lemma_run_columns()
    ensures
        forall|i: int|
            0 <= i < run_header().len() ==> column_of(run_header(), #[trigger] run_header()[i])
                == Some(i),
        run_header().len() == 14,
{
    reveal_strlit("run_id");
    reveal_strlit("factor");
    reveal_strlit("breakpoint");
    reveal_strlit("min_assets");
    reveal_strlit("weighting_method");
    reveal_strlit("cumulative_returns");
    reveal_strlit("annualized_return");
    reveal_strlit("years");
    reveal_strlit("sharpe_ratio");
    reveal_strlit("sortino_ratio");
    reveal_strlit("long_only_returns");
    reveal_strlit("short_only_returns");
    reveal_strlit("start_date");
    reveal_strlit("end_date");
    let h = run_header();
    assert forall|i: int, j: int| 0 <= i < j < h.len() implies h[i] != h[j] by {
        assert(h[i].len() != h[j].len() || h[i][0] != h[j][0] || h[i][1] != h[j][1] || h[i][2]
            != h[j][2] || h[i][3] != h[j][3] || h[i][4] != h[j][4] || h[i][5] != h[j][5]
            || h[i][10] != h[j][10]);
    }
    assert forall|i: int| 0 <= i < h.len() implies column_of(h, #[trigger] h[i]) == Some(i) by {
        lemma_column_found(h, h[i], i);
    }
}

/// A run that is well formed is read back from its row as it was stored.
pub proof fn lemma_run_round_trip(v: RunView, factor: Seq<char>)
    requires
        v.wf(),
    ensures
        run_of_row(run_header(), run_row(v), factor) == v,
{
    lemma_run_columns();
    let h = run_header();
    let r = run_row(v);
    assert(h[0] == "run_id"@ && h[1] == "factor"@ && h[2] == "breakpoint"@ && h[3]
        == "min_assets"@ && h[4] == "weighting_method"@ && h[5] == "cumulative_returns"@ && h[6]
        == "annualized_return"@ && h[7] == "years"@ && h[8] == "sharpe_ratio"@ && h[9]
        == "sortino_ratio"@ && h[10] == "long_only_returns"@ && h[11] == "short_only_returns"@
        && h[12] == "start_date"@ && h[13] == "end_date"@);
    assert(r.len() == 14);
    lemma_empty_not_numeric();
    if v.min_assets is Some {
        lemma_decimal_text(v.min_assets->0);
    }
    let back = run_of_row(h, r, factor);
    assert(back.run_id == v.run_id);
    assert(back.factor == v.factor);
    assert(back.breakpoint == v.breakpoint);
    assert(back.min_assets == v.min_assets);
    assert(back.weighting_method == v.weighting_method);
    assert(back.cumulative_returns == v.cumulative_returns);
    assert(back.annualized_return == v.annualized_return);
    assert(back.years == v.years);
    assert(back.sharpe_ratio == v.sharpe_ratio);
    assert(back.sortino_ratio == v.sortino_ratio);
    assert(back.long_only_returns == v.long_only_returns);
    assert(back.short_only_returns == v.short_only_returns);
    assert(back.start_date == v.start_date);
    assert(back.end_date == v.end_date);
}

/// The rows of a log are its header followed by one row for each run, in the
/// order of the appends.
pub proof fn lemma_log_rows(runs: Seq<RunView>)
    requires
        runs.len() > 0,
    ensures
        log_rows(runs).len() == runs.len() + 1,
        log_rows(runs)[0] == run_header(),
        forall|i: int| 0 <= i < runs.len() ==> #[trigger] log_rows(runs)[i + 1] == run_row(runs[i]),
    decreases runs.len(),
{
    if runs.len() > 1 {
        lemma_log_rows(runs.drop_last());
        assert forall|i: int| 0 <= i < runs.len() implies #[trigger] log_rows(runs)[i + 1]
            == run_row(runs[i]) by {
            if i < runs.len() - 1 {
                assert(log_rows(runs)[i + 1] == log_rows(runs.drop_last())[i + 1]);
                assert(runs.drop_last()[i] == runs[i]);
            }
        }
    } else {
        assert(log_rows(runs.drop_last()) =~= Seq::empty());
    }
}

/// After any number of appends of well-formed runs to a log that did not
/// exist, reading the log gives exactly those runs, in the order of the
/// appends; so the run appended last is read last.
pub proof fn lemma_append_only(runs: Seq<RunView>, factor: Seq<char>)
    requires
        forall|i: int| 0 <= i < runs.len() ==> (#[trigger] runs[i]).wf(),
    ensures
        runs_of_rows(log_rows(runs), factor) == runs,
        forall|run: RunView|
            run.wf() ==> #[trigger] runs_of_rows(log_rows(runs.push(run)), factor).last() == run,
{
    if runs.len() > 0 {
        lemma_log_rows(runs);
        assert forall|i: int| 0 <= i < runs.len() implies runs_of_rows(log_rows(runs), factor)[i]
            == runs[i] by {
            lemma_run_round_trip(runs[i], factor);
        }
    }
    assert(runs_of_rows(log_rows(runs), factor) =~= runs);
    assert forall|run: RunView| run.wf() implies #[trigger] runs_of_rows(
        log_rows(runs.push(run)),
        factor,
    ).last() == run by {
        let more = runs.push(run);
        lemma_log_rows(more);
        lemma_run_round_trip(run, factor);
        assert(more[runs.len() as int] == run);
        assert(log_rows(more)[runs.len() as int + 1] == run_row(more[runs.len() as int]));
    }
}

/// An owned copy of an optional string slice.
fn owned_opt(o: Option<&str>) -> (r: Option<String>)
    ensures
        opt_text(r) == opt_slice(o),
{
    match o {
        Some(s) => Some(owned(s)),
        None => None,
    }
}

/// The cell of an optional text.
fn text_cell(o: &Option<String>) -> (r: String)
    ensures
        r@ == cell_or_empty(opt_text(*o)),
{
    match o {
        Some(t) => t.clone(),
        None => String::new(),
    }
}

/// The header of the run log.
pub fn run_header_row() -> (header: Vec<String>)
    ensures
        texts(header@) == run_header(),
{
    let mut header: Vec<String> = Vec::new();
    header.push(String::from_str("run_id"));
    header.push(String::from_str("factor"));
    header.push(String::from_str("breakpoint"));
    header.push(String::from_str("min_assets"));
    header.push(String::from_str("weighting_method"));
    header.push(String::from_str("cumulative_returns"));
    header.push(String::from_str("annualized_return"));
    header.push(String::from_str("years"));
    header.push(String::from_str("sharpe_ratio"));
    header.push(String::from_str("sortino_ratio"));
    header.push(String::from_str("long_only_returns"));
    header.push(String::from_str("short_only_returns"));
    header.push(String::from_str("start_date"));
    header.push(String::from_str("end_date"));
    assert(texts(header@) =~= run_header());
    header
}

/// The row that stores a run.
pub fn run_record_row(run: &FactorPerformance) -> (row: Vec<String>)
    ensures
        texts(row@) == run_row(run@),
{
    let mut row: Vec<String> = Vec::new();
    row.push(run.run_id.clone());
    row.push(run.factor.clone());
    row.push(text_cell(&run.breakpoint));
    row.push(
        match run.min_assets {
            Some(n) => format_decimal(n as u64),
            None => String::new(),
        },
    );
    row.push(text_cell(&run.weighting_method));
    row.push(text_cell(&run.cumulative_returns));
    row.push(text_cell(&run.annualized_return));
    row.push(text_cell(&run.years));
    row.push(text_cell(&run.sharpe_ratio));
    row.push(text_cell(&run.sortino_ratio));
    row.push(text_cell(&run.long_only_returns));
    row.push(text_cell(&run.short_only_returns));
    row.push(text_cell(&run.start_date));
    row.push(text_cell(&run.end_date));
    assert(texts(row@) =~= run_row(run@));
    row
}

/// The rows that an append of the run writes: its row, after the header
/// where the file is new.
pub fn run_log_rows(file_exists: bool, run: &FactorPerformance) -> (rows: Vec<Vec<String>>)
    ensures
        record_texts(rows@) == appended_rows(file_exists, run@),
{
    let mut rows: Vec<Vec<String>> = Vec::new();
    if !file_exists {
        rows.push(run_header_row());
    }
    rows.push(run_record_row(run));
    assert(record_texts(rows@) =~= appended_rows(file_exists, run@));
    rows
}

/// The index of the column with the given name.
fn find_column(header: &Vec<String>, name: &str) -> (r: Option<usize>)
    ensures
        match r {
            Some(i) => column_of(texts(header@), name@) == Some(i as int) && i < header@.len(),
            None => column_of(texts(header@), name@) is None,
        },
{
    let mut i: usize = header.len();
    assert(texts(header@).take(i as int) =~= texts(header@));
    while i > 0
        invariant
            i <= header@.len(),
            column_of(texts(header@), name@) == column_of(texts(header@).take(i as int), name@),
        decreases i,
    {
        i -= 1;
        let ghost prefix = texts(header@).take(i + 1);
        assert(prefix.last() == header@[i as int]@);
        assert(prefix.drop_last() =~= texts(header@).take(i as int));
        if same_text(header[i].as_str(), name) {
            return Some(i);
        }
    }
    None
}

/// The cell of a row under the column with the given name.
fn read_cell<'a>(header: &Vec<String>, row: &'a Vec<String>, name: &str) -> (r: Option<&'a String>)
    ensures
        opt_ref_text(r) == cell(texts(header@), texts(row@), name@),
{
    match find_column(header, name) {
        Some(i) => if i < row.len() {
            Some(&row[i])
        } else {
            None
        },
        None => None,
    }
}

/// A statistic read from a cell.
fn read_numeric(header: &Vec<String>, row: &Vec<String>, name: &str) -> (r: Option<String>)
    ensures
        opt_text(r) == numeric_cell(cell(texts(header@), texts(row@), name@)),
{
    match read_cell(header, row, name) {
        Some(t) => if is_numeric_text(t.as_str()) {
            Some(t.clone())
        } else {
            None
        },
        None => None,
    }
}

/// An optional text read from a cell.
fn read_filled(header: &Vec<String>, row: &Vec<String>, name: &str) -> (r: Option<String>)
    ensures
        opt_text(r) == filled_cell(cell(texts(header@), texts(row@), name@)),
{
    match read_cell(header, row, name) {
        Some(t) => if t.as_str().is_empty() {
            None
        } else {
            Some(t.clone())
        },
        None => None,
    }
}

/// A count read from a cell.
fn read_count(header: &Vec<String>, row: &Vec<String>, name: &str) -> (r: Option<usize>)
    ensures
        opt_count(r) == count_cell(cell(texts(header@), texts(row@), name@)),
{
    match read_cell(header, row, name) {
        Some(t) => match parse_u64(t.as_str()) {
            Some(n) => if n <= usize::MAX as u64 {
                Some(n as usize)
            } else {
                None
            },
            None => None,
        },
        None => None,
    }
}

/// The run that a row stores under a header.
pub fn run_from_record(header: &Vec<String>, row: &Vec<String>, factor: &str) -> (run:
    FactorPerformance)
    ensures
        run@ == run_of_row(texts(header@), texts(row@), factor@),
{
    let run_id = match read_cell(header, row, "run_id") {
        Some(t) => t.clone(),
        None => String::new(),
    };
    let factor_name = match read_cell(header, row, "factor") {
        Some(t) => t.clone(),
        None => String::from_str(factor),
    };
    FactorPerformance {
        run_id,
        factor: factor_name,
        breakpoint: read_numeric(header, row, "breakpoint"),
        min_assets: read_count(header, row, "min_assets"),
        weighting_method: read_filled(header, row, "weighting_method"),
        cumulative_returns: read_numeric(header, row, "cumulative_returns"),
        annualized_return: read_numeric(header, row, "annualized_return"),
        years: read_numeric(header, row, "years"),
        sharpe_ratio: read_numeric(header, row, "sharpe_ratio"),
        sortino_ratio: read_numeric(header, row, "sortino_ratio"),
        long_only_returns: read_numeric(header, row, "long_only_returns"),
        short_only_returns: read_numeric(header, row, "short_only_returns"),
        start_date: read_filled(header, row, "start_date"),
        end_date: read_filled(header, row, "end_date"),
    }
}

/// The runs that the records of a log store: the first record is the header,
/// every other record a run.
pub fn runs_from_records(records: &Vec<Vec<String>>, factor: &str) -> (runs: Vec<
    FactorPerformance,
>)
    ensures
        run_views(runs@) == runs_of_rows(record_texts(records@), factor@),
{
    let mut runs: Vec<FactorPerformance> = Vec::new();
    if records.len() == 0 {
        assert(run_views(runs@) =~= runs_of_rows(record_texts(records@), factor@));
        return runs;
    }
    let mut i: usize = 1;
    while i < records.len()
        invariant
            1 <= i <= records@.len(),
            runs@.len() == i - 1,
            forall|k: int|
                0 <= k < runs@.len() ==> (#[trigger] runs@[k])@ == run_of_row(
                    texts(records@[0]@),
                    texts(records@[k + 1]@),
                    factor@,
                ),
        decreases records@.len() - i,
    {
        runs.push(run_from_record(&records[0], &records[i], factor));
        i += 1;
    }
    assert(run_views(runs@) =~= runs_of_rows(record_texts(records@), factor@));
    runs
}

/// The bytes of a file, if there is one.
pub open spec fn opt_bytes(content: Option<&[u8]>) -> Option<Seq<u8>> {
    match content {
        Some(bytes) => Some(bytes@),
        None => None,
    }
}

/// The runs stored in a log file: none where there is no file; `None` where
/// the file cannot be read as records.
pub open spec fn stored_runs(content: Option<Seq<u8>>, factor: Seq<char>) -> Option<Seq<RunView>> {
    match content {
        None => Some(Seq::empty()),
        Some(bytes) => match csv_records(bytes) {
            Some(rows) => Some(runs_of_rows(rows, factor)),
            None => None,
        },
    }
}

/// The name of the file that holds the run log of a factor.
pub open spec fn summary_name(factor: Seq<char>) -> Seq<char> {
    factor + ".csv"@
}

/// The name of the file that holds the return series of a run.
pub open spec fn series_name(factor: Seq<char>, run_id: Seq<char>) -> Seq<char> {
    factor + "_"@ + run_id + "_returns.csv"@
}

/// The names of the columns of a return series, in order.
pub open spec fn series_header() -> Seq<Seq<char>> {
    seq!["date"@, "return"@, "cumulative_return"@]
}

/// The row that stores one entry of a return series.
pub open spec fn series_row(date: Seq<char>, ret: Seq<char>, cumulative: Seq<char>) -> Seq<
    Seq<char>,
> {
    seq![date, ret, cumulative]
}

/// The rows of the file of a return series: the header, and one row for
/// each date.
pub open spec fn series_rows(
    dates: Seq<Seq<char>>,
    period_returns: Seq<Seq<char>>,
    cumulative: Seq<Seq<char>>,
) -> Seq<Seq<Seq<char>>> {
    seq![series_header()] + Seq::new(
        dates.len(),
        |i: int| series_row(dates[i], period_returns[i], cumulative[i]),
    )
}

/// The entry that a row of a return series stores, if the row has a date and
/// its return and its cumulative return are numeric texts.
pub open spec fn entry_of_row(header: Seq<Seq<char>>, row: Seq<Seq<char>>) -> Option<
    (Seq<char>, Seq<char>, Seq<char>),
> {
    match (
        cell(header, row, "date"@),
        numeric_cell(cell(header, row, "return"@)),
        numeric_cell(cell(header, row, "cumulative_return"@)),
    ) {
        (Some(date), Some(ret), Some(cumulative)) => Some((date, ret, cumulative)),
        _ => None,
    }
}

/// The entries stored in the first `upto` rows after the header; a row
/// without an entry is passed over.
pub open spec fn entries_of_rows(rows: Seq<Seq<Seq<char>>>, upto: int) -> Seq<
    (Seq<char>, Seq<char>, Seq<char>),
>
    decreases upto,
{
    if upto <= 0 || rows.len() == 0 {
        Seq::empty()
    } else {
        match entry_of_row(rows[0], rows[upto]) {
            Some(entry) => entries_of_rows(rows, upto - 1).push(entry),
            None => entries_of_rows(rows, upto - 1),
        }
    }
}

/// The entries stored in the rows of a return series.
pub open spec fn series_of_rows(rows: Seq<Seq<Seq<char>>>) -> Seq<
    (Seq<char>, Seq<char>, Seq<char>),
> {
    entries_of_rows(rows, rows.len() - 1)
}

/// Three sequences of equal length as one sequence of entries.
pub open spec fn entries(
    dates: Seq<Seq<char>>,
    period_returns: Seq<Seq<char>>,
    cumulative: Seq<Seq<char>>,
) -> Seq<(Seq<char>, Seq<char>, Seq<char>)> {
    Seq::new(dates.len(), |i: int| (dates[i], period_returns[i], cumulative[i]))
}

/// Whether every text of a sequence is a numeric text.
pub open spec fn all_numeric(values: Seq<Seq<char>>) -> bool {
    forall|i: int| 0 <= i < values.len() ==> is_numeric(#[trigger] values[i])
}

/// Each name of the header of a return series names its own column.
proof fn lemma_series_columns()
    ensures
        column_of(series_header(), "date"@) == Some(0int),
        column_of(series_header(), "return"@) == Some(1int),
        column_of(series_header(), "cumulative_return"@) == Some(2int),
{
    reveal_strlit("date");
    reveal_strlit("return");
    reveal_strlit("cumulative_return");
    let h = series_header();
    assert(h[0].len() != h[1].len() && h[0].len() != h[2].len() && h[1].len() != h[2].len());
    lemma_column_found(h, "date"@, 0);
    lemma_column_found(h, "return"@, 1);
    lemma_column_found(h, "cumulative_return"@, 2);
}

/// The first rows of a stored series give back its first entries.
proof fn lemma_series_prefix(
    dates: Seq<Seq<char>>,
    period_returns: Seq<Seq<char>>,
    cumulative: Seq<Seq<char>>,
    upto: int,
)
    requires
        dates.len() == period_returns.len() == cumulative.len(),
        all_numeric(period_returns),
        all_numeric(cumulative),
        0 <= upto <= dates.len(),
    ensures
        entries_of_rows(series_rows(dates, period_returns, cumulative), upto) == entries(
            dates,
            period_returns,
            cumulative,
        ).take(upto),
    decreases upto,
{
    let rows = series_rows(dates, period_returns, cumulative);
    let all = entries(dates, period_returns, cumulative);
    if upto > 0 {
        lemma_series_prefix(dates, period_returns, cumulative, upto - 1);
        lemma_series_columns();
        assert(rows[0] == series_header());
        assert(rows[upto] == series_row(dates[upto - 1], period_returns[upto - 1], cumulative[upto - 1]));
        assert(entry_of_row(rows[0], rows[upto]) == Some(all[upto - 1]));
        assert(all.take(upto - 1).push(all[upto - 1]) =~= all.take(upto));
    } else {
        assert(all.take(0) =~= Seq::empty());
    }
}

/// A return series whose returns and cumulative returns are numeric texts is
/// read back from its rows as it was stored, entry for entry.
pub proof fn lemma_series_round_trip(
    dates: Seq<Seq<char>>,
    period_returns: Seq<Seq<char>>,
    cumulative: Seq<Seq<char>>,
)
    requires
        dates.len() == period_returns.len() == cumulative.len(),
        all_numeric(period_returns),
        all_numeric(cumulative),
    ensures
        series_of_rows(series_rows(dates, period_returns, cumulative)) == entries(
            dates,
            period_returns,
            cumulative,
        ),
{
    lemma_series_prefix(dates, period_returns, cumulative, dates.len() as int);
    assert(entries(dates, period_returns, cumulative).take(dates.len() as int) =~= entries(
        dates,
        period_returns,
        cumulative,
    ));
}

/// The rows of the file of a return series. The three sequences must be of
/// one length.
pub fn series_records(
    dates: &Vec<String>,
    period_returns: &Vec<String>,
    cumulative_returns: &Vec<String>,
) -> (r: Result<Vec<Vec<String>>, Error>)
    ensures
        match r {
            Ok(rows) => {
                &&& dates@.len() == period_returns@.len() == cumulative_returns@.len()
                &&& record_texts(rows@) == series_rows(
                    texts(dates@),
                    texts(period_returns@),
                    texts(cumulative_returns@),
                )
                &&& forall|i: int| 0 <= i < rows@.len() ==> (#[trigger] rows@[i])@.len() == 3
            },
            Err(e) => {
                &&& !(dates@.len() == period_returns@.len() == cumulative_returns@.len())
                &&& e is InvalidInput
                &&& e.detail() == "dates, returns and cumulative returns differ in length"@
            },
        },
{
    if dates.len() != period_returns.len() || dates.len() != cumulative_returns.len() {
        return Err(
            Error::InvalidInput(
                String::from_str("dates, returns and cumulative returns differ in length"),
            ),
        );
    }
    let mut rows: Vec<Vec<String>> = Vec::new();
    let mut header: Vec<String> = Vec::new();
    header.push(String::from_str("date"));
    header.push(String::from_str("return"));
    header.push(String::from_str("cumulative_return"));
    assert(texts(header@) =~= series_header());
    rows.push(header);
    let mut i: usize = 0;
    while i < dates.len()
        invariant
            i <= dates@.len(),
            dates@.len() == period_returns@.len() == cumulative_returns@.len(),
            rows@.len() == i + 1,
            texts(rows@[0]@) == series_header(),
            forall|k: int| 0 <= k < rows@.len() ==> (#[trigger] rows@[k])@.len() == 3,
            forall|k: int|
                1 <= k < rows@.len() ==> texts((#[trigger] rows@[k])@) == series_row(
                    dates@[k - 1]@,
                    period_returns@[k - 1]@,
                    cumulative_returns@[k - 1]@,
                ),
        decreases dates@.len() - i,
    {
        let mut row: Vec<String> = Vec::new();
        row.push(dates[i].clone());
        row.push(period_returns[i].clone());
        row.push(cumulative_returns[i].clone());
        assert(texts(row@) =~= series_row(
            dates@[i as int]@,
            period_returns@[i as int]@,
            cumulative_returns@[i as int]@,
        ));
        rows.push(row);
        i += 1;
    }
    assert(record_texts(rows@) =~= series_rows(
        texts(dates@),
        texts(period_returns@),
        texts(cumulative_returns@),
    ));
    Ok(rows)
}

/// The entries stored in the records of a return series, as three vectors of
/// one length: dates, returns and cumulative returns.
pub fn series_from_records(records: &Vec<Vec<String>>) -> (r: (
    Vec<String>,
    Vec<String>,
    Vec<String>,
))
    ensures
        r.0@.len() == r.1@.len() == r.2@.len(),
        entries(texts(r.0@), texts(r.1@), texts(r.2@)) == series_of_rows(record_texts(records@)),
{
    let mut dates: Vec<String> = Vec::new();
    let mut period_returns: Vec<String> = Vec::new();
    let mut cumulative: Vec<String> = Vec::new();
    let ghost rows = record_texts(records@);
    if records.len() == 0 {
        assert(entries(texts(dates@), texts(period_returns@), texts(cumulative@)) =~= series_of_rows(rows));
        return (dates, period_returns, cumulative);
    }
    let mut i: usize = 1;
    assert(entries(texts(dates@), texts(period_returns@), texts(cumulative@)) =~= entries_of_rows(rows, 0));
    while i < records.len()
        invariant
            1 <= i <= records@.len(),
            rows == record_texts(records@),
            dates@.len() == period_returns@.len() == cumulative@.len(),
            entries(texts(dates@), texts(period_returns@), texts(cumulative@)) == entries_of_rows(
                rows,
                i - 1,
            ),
        decreases records@.len() - i,
    {
        let ghost before = entries(texts(dates@), texts(period_returns@), texts(cumulative@));
        assert(rows[0] == texts(records@[0]@));
        assert(rows[i as int] == texts(records@[i as int]@));
        let date = read_cell(&records[0], &records[i], "date");
        let ret = read_numeric(&records[0], &records[i], "return");
        let cum = read_numeric(&records[0], &records[i], "cumulative_return");
        match (date, ret, cum) {
            (Some(d), Some(r), Some(c)) => {
                dates.push(d.clone());
                period_returns.push(r);
                cumulative.push(c);
                assert(entries(texts(dates@), texts(period_returns@), texts(cumulative@)) =~= before.push(
                    (d@, r@, c@),
                ));
            },
            _ => {},
        }
        i += 1;
    }
    (dates, period_returns, cumulative)
}

/// Whether a text has the shape of a random identifier: thirty-six
/// characters, hyphens at the four places that part the five groups, and
/// lower-case hexadecimal digits everywhere else.
pub open spec fn is_token(s: Seq<char>) -> bool {
    &&& s.len() == 36
    &&& forall|i: int|
        0 <= i < 36 ==> if i == 8 || i == 13 || i == 18 || i == 23 {
            #[trigger] s[i] == '-'
        } else {
            is_lower_hex(s[i])
        }
}

/// Whether a character is a lower-case hexadecimal digit.
pub open spec fn is_lower_hex(c: char) -> bool {
    ('0' <= c <= '9') || ('a' <= c <= 'f')
}

/// The identifier of a run made from a time stamp and a token.
pub open spec fn run_id_of(stamp: Seq<char>, token: Seq<char>) -> Seq<char> {
    stamp + "_"@ + token
}

/// The present moment in UTC as chrono's `Utc::now` gives it, written under
/// the pattern `%Y%m%d_%H%M%S`. The text depends on the clock; nothing is
/// claimed of it. chrono does not return where the system clock stands before
/// the year 1970.
#[verifier::external_body]
fn clock_stamp() -> (r: String) {
    chrono::Utc::now().format("%Y%m%d_%H%M%S").to_string()
}

/// A random identifier from `Uuid::new_v4`, as its `Display` writes it: in
/// lower case, in five groups parted by hyphens. Which identifier comes is
/// left to chance; only its shape is claimed. The uuid crate does not return
/// where the system has no random bytes to give.
#[verifier::external_body]
fn random_token() -> (r: String)
    ensures
        is_token(r@),
{
    uuid::Uuid::new_v4().to_string()
}

/// Puts a time stamp and a token together into the identifier of a run.
pub fn compose_run_id(stamp: &str, token: &str) -> (id: String)
    ensures
        id@ == run_id_of(stamp@, token@),
{
    String::from_str(stamp).concat("_").concat(token)
}

/// The logger of one directory of logs.
#[derive(Clone, Debug, PartialEq, Eq)]
pub struct CsvLogger {
    /// The directory that holds the files.
    pub logs_dir: String,
}

impl CsvLogger {
    /// A logger for the given directory.
    pub fn new(logs_dir: String) -> (logger: CsvLogger)
        ensures
            logger.logs_dir == logs_dir,
    {
        CsvLogger { logs_dir }
    }

    /// A fresh identifier for a run: the present moment, to the second,
    /// followed by a random token.
    pub fn generate_run_id() -> (id: String)
        ensures
            exists|stamp: Seq<char>, token: Seq<char>|
                is_token(token) && id@ == #[trigger] run_id_of(stamp, token),
    {
        let stamp = clock_stamp();
        let token = random_token();
        compose_run_id(stamp.as_str(), token.as_str())
    }

    /// The name of the file that holds the run log of a factor.
    pub fn summary_file_name(factor: &str) -> (name: String)
        ensures
            name@ == summary_name(factor@),
    {
        String::from_str(factor).concat(".csv")
    }

    /// The name of the file that holds the return series of a run.
    pub fn series_file_name(factor: &str, run_id: &str) -> (name: String)
        ensures
            name@ == series_name(factor@, run_id@),
    {
        String::from_str(factor).concat("_").concat(run_id).concat("_returns.csv")
    }

    /// The bytes to append to the run log of a factor for one run: the row of
    /// the run, after the header where the file does not exist yet, as the
    /// csv crate frames them. The call always succeeds.
    pub fn log_run(&self, file_exists: bool, run: &FactorPerformance) -> (r: Result<
        Vec<u8>,
        Error,
    >)
        ensures
            r is Ok,
            r->Ok_0@ == csv_bytes(appended_rows(file_exists, run@)),
    {
        let rows = run_log_rows(file_exists, run);
        proof {
            lemma_run_columns();
            assert forall|i: int| 0 <= i < rows@.len() implies (#[trigger] rows@[i])@.len()
                == 14 by {
                assert(record_texts(rows@)[i] == texts(rows@[i]@));
                assert(run_row(run@).len() == 14);
                assert(run_header().len() == 14);
                assert(record_texts(rows@).len() == rows@.len());
                if file_exists {
                    assert(appended_rows(file_exists, run@) =~= seq![run_row(run@)]);
                    assert(appended_rows(file_exists, run@)[0] == run_row(run@));
                } else {
                    assert(appended_rows(file_exists, run@) =~= seq![run_header(), run_row(run@)]);
                    assert(appended_rows(file_exists, run@)[0] == run_header());
                    assert(appended_rows(file_exists, run@)[1] == run_row(run@));
                }
                assert(appended_rows(file_exists, run@)[i].len() == 14);
                assert(texts(rows@[i]@).len() == rows@[i]@.len());
            }
        }
        encode_records(&rows)
    }

    /// The bytes to append to the run log of `factor` for the run with the
    /// given identifier, settings and statistics; see `log_run`. Every
    /// statistic is optional and given as a numeric text. The call always
    /// succeeds.
    pub fn log_results(
        &self,
        file_exists: bool,
        factor: &str,
        run_id: &str,
        breakpoint: Option<&str>,
        min_assets: Option<usize>,
        weighting_method: Option<&str>,
        cumulative_returns: Option<&str>,
        annualized_return: Option<&str>,
        years: Option<&str>,
        sharpe_ratio: Option<&str>,
        sortino_ratio: Option<&str>,
        long_only_returns: Option<&str>,
        short_only_returns: Option<&str>,
        start_date: Option<&str>,
        end_date: Option<&str>,
    ) -> (r: Result<Vec<u8>, Error>)
        ensures
            r is Ok,
            r->Ok_0@ == csv_bytes(
                appended_rows(
                        file_exists,
                        RunView {
                            run_id: run_id@,
                            factor: factor@,
                            breakpoint: opt_slice(breakpoint),
                            min_assets: opt_count(min_assets),
                            weighting_method: opt_slice(weighting_method),
                            cumulative_returns: opt_slice(cumulative_returns),
                            annualized_return: opt_slice(annualized_return),
                            years: opt_slice(years),
                            sharpe_ratio: opt_slice(sharpe_ratio),
                            sortino_ratio: opt_slice(sortino_ratio),
                            long_only_returns: opt_slice(long_only_returns),
                            short_only_returns: opt_slice(short_only_returns),
                            start_date: opt_slice(start_date),
                            end_date: opt_slice(end_date),
                        },
                    ),
                ),
    {
        let run = FactorPerformance {
            run_id: owned(run_id),
            factor: owned(factor),
            breakpoint: owned_opt(breakpoint),
            min_assets,
            weighting_method: owned_opt(weighting_method),
            cumulative_returns: owned_opt(cumulative_returns),
            annualized_return: owned_opt(annualized_return),
            years: owned_opt(years),
            sharpe_ratio: owned_opt(sharpe_ratio),
            sortino_ratio: owned_opt(sortino_ratio),
            long_only_returns: owned_opt(long_only_returns),
            short_only_returns: owned_opt(short_only_returns),
            start_date: owned_opt(start_date),
            end_date: owned_opt(end_date),
        };
        self.log_run(file_exists, &run)
    }

    /// The bytes of the file of a return series, as the csv crate frames its
    /// rows. The call succeeds exactly when the three sequences are of one
    /// length.
    pub fn save_time_series(
        &self,
        dates: &Vec<String>,
        period_returns: &Vec<String>,
        cumulative_returns: &Vec<String>,
    ) -> (r: Result<Vec<u8>, Error>)
        ensures
            match r {
                Ok(bytes) => {
                    &&& dates@.len() == period_returns@.len() == cumulative_returns@.len()
                    &&& bytes@ == csv_bytes(
                        series_rows(
                            texts(dates@),
                            texts(period_returns@),
                            texts(cumulative_returns@),
                        ),
                    )
                },
                Err(e) => {
                    &&& !(dates@.len() == period_returns@.len() == cumulative_returns@.len())
                    &&& e@ == ErrorView::InvalidInput(
                        "dates, returns and cumulative returns differ in length"@,
                    )
                },
            },
    {
        let rows = match series_records(dates, period_returns, cumulative_returns) {
            Ok(rows) => rows,
            Err(e) => {
                return Err(e);
            },
        };
        encode_records(&rows)
    }

    /// The runs of a factor, in the order in which they were appended.
    /// `content` holds the bytes of the factor's log, or nothing where the
    /// file does not exist, which is no error: there are no runs yet.
    pub fn load_factor_logs(&self, factor: &str, content: Option<&[u8]>) -> (r: Result<
        Vec<FactorPerformance>,
        Error,
    >)
        ensures
            match r {
                Ok(runs) => stored_runs(opt_bytes(content), factor@) == Some(run_views(runs@)),
                Err(e) => stored_runs(opt_bytes(content), factor@) is None && e is Csv,
            },
            content is None ==> r is Ok && r->Ok_0@.len() == 0,
    {
        match content {
            None => {
                let runs: Vec<FactorPerformance> = Vec::new();
                assert(run_views(runs@) =~= Seq::empty());
                Ok(runs)
            },
            Some(bytes) => match read_records(bytes) {
                Ok(records) => Ok(runs_from_records(&records, factor)),
                Err(message) => Err(Error::Csv(message)),
            },
        }
    }

    /// The return series of a run: dates, returns and cumulative returns.
    /// `content` holds the bytes of the run's file, or nothing where the file
    /// does not exist, which is reported as not found.
    pub fn load_time_series(&self, factor: &str, run_id: &str, content: Option<&[u8]>) -> (r:
        Result<(Vec<String>, Vec<String>, Vec<String>), Error>)
        ensures
            match r {
                Ok(series) => {
                    &&& content matches Some(bytes)
                    &&& csv_records(bytes@) matches Some(rows)
                    &&& series.0@.len() == series.1@.len() == series.2@.len()
                    &&& entries(texts(series.0@), texts(series.1@), texts(series.2@))
                        == series_of_rows(rows)
                },
                Err(e) => match content {
                    None => e is NotFound && e.detail() == "Time series file not found: "@
                        + series_name(factor@, run_id@),
                    Some(bytes) => csv_records(bytes@) is None && e is Csv,
                },
            },
            content is None ==> r is Err,
    {
        match content {
            None => {
                let name = CsvLogger::series_file_name(factor, run_id);
                Err(
                    Error::NotFound(
                        String::from_str("Time series file not found: ").concat(name.as_str()),
                    ),
                )
            },
            Some(bytes) => match read_records(bytes) {
                Ok(records) => Ok(series_from_records(&records)),
                Err(message) => Err(Error::Csv(message)),
            },
        }
    }
}

} // verus!

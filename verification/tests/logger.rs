use factors_rs::error::Error;
use factors_rs::logger::csv_logger::{
    compose_run_id, run_from_record, run_header_row, run_log_rows, run_record_row,
    runs_from_records, series_from_records, series_records,
};
use factors_rs::logger::CsvLogger;
use factors_rs::models::FactorPerformance;

fn strings(items: &[&str]) -> Vec<String> {
    items.iter().map(|s| s.to_string()).collect()
}

fn number(text: &Option<String>) -> Option<f64> {
    text.as_deref().map(|t| t.parse::<f64>().unwrap())
}

fn numbers(texts: &[String]) -> Vec<f64> {
    texts.iter().map(|t| t.parse::<f64>().unwrap()).collect()
}

fn texts_of(values: &[f64]) -> Vec<String> {
    values.iter().map(|v| v.to_string()).collect()
}

#[test]
fn test_csv_logger() {
    let logger = CsvLogger::new("factor_logs".to_string());

    let run_id = CsvLogger::generate_run_id();

    // Log results
    let file = logger
        .log_results(
            false,
            "smb",
            &run_id,
            Some(&0.3f64.to_string()),
            Some(30),
            Some("equal"),
            Some(&0.5f64.to_string()),
            Some(&0.15f64.to_string()),
            Some(&2.5f64.to_string()),
            Some(&1.2f64.to_string()),
            Some(&1.3f64.to_string()),
            Some(&0.3f64.to_string()),
            Some(&0.2f64.to_string()),
            Some("2023-01-01"),
            Some("2023-12-31"),
        )
        .unwrap();

    // Load results
    let results = logger.load_factor_logs("smb", Some(&file)).unwrap();
    assert_eq!(results.len(), 1);
    assert_eq!(results[0].factor, "smb");
    assert_eq!(number(&results[0].breakpoint), Some(0.3));
}

#[test]
fn test_time_series() {
    let logger = CsvLogger::new("factor_logs".to_string());

    let dates = vec!["2023-01-01".to_string(), "2023-01-08".to_string()];
    let returns = vec![0.01, 0.02];
    let cumulative_returns = vec![0.01, 0.0302];

    // Save time series
    let file = logger
        .save_time_series(&dates, &texts_of(&returns), &texts_of(&cumulative_returns))
        .unwrap();

    // Load time series
    let run_id = CsvLogger::generate_run_id();
    let (loaded_dates, loaded_returns, loaded_cum_returns) = logger
        .load_time_series("smb", &run_id, Some(&file))
        .unwrap();

    assert_eq!(loaded_dates, dates);
    assert_eq!(numbers(&loaded_returns), returns);
    assert_eq!(numbers(&loaded_cum_returns), cumulative_returns);
}

fn sample_run(run_id: &str, sharpe: Option<&str>) -> FactorPerformance {
    FactorPerformance {
        run_id: run_id.to_string(),
        factor: "smb".to_string(),
        breakpoint: Some("0.3".to_string()),
        min_assets: Some(30),
        weighting_method: Some("equal".to_string()),
        cumulative_returns: Some("0.5".to_string()),
        annualized_return: Some("0.15".to_string()),
        years: Some("2.5".to_string()),
        sharpe_ratio: sharpe.map(|s| s.to_string()),
        sortino_ratio: None,
        long_only_returns: Some("-0.3".to_string()),
        short_only_returns: Some("1e-3".to_string()),
        start_date: Some("2023-01-01".to_string()),
        end_date: None,
    }
}

#[test]
fn the_first_append_writes_the_header_and_later_ones_do_not() {
    let logger = CsvLogger::new("logs".to_string());
    let run = sample_run("20230101_000000_token", Some("1.2"));
    let first = logger.log_run(false, &run).unwrap();
    assert_eq!(
        String::from_utf8(first).unwrap(),
        "run_id,factor,breakpoint,min_assets,weighting_method,cumulative_returns,\
         annualized_return,years,sharpe_ratio,sortino_ratio,long_only_returns,\
         short_only_returns,start_date,end_date\n\
         20230101_000000_token,smb,0.3,30,equal,0.5,0.15,2.5,1.2,,-0.3,1e-3,2023-01-01,\n"
    );
    let later = logger.log_run(true, &run).unwrap();
    assert_eq!(
        String::from_utf8(later).unwrap(),
        "20230101_000000_token,smb,0.3,30,equal,0.5,0.15,2.5,1.2,,-0.3,1e-3,2023-01-01,\n"
    );
}

#[test]
fn appended_runs_are_read_back_in_order() {
    let logger = CsvLogger::new("logs".to_string());
    let mut file: Vec<u8> = Vec::new();
    let mut appended: Vec<FactorPerformance> = Vec::new();
    assert_eq!(logger.load_factor_logs("smb", None), Ok(vec![]));
    for n in 0..7 {
        let mut run = sample_run(&format!("run-{}", n), Some(&format!("{}.5", n)));
        run.min_assets = if n % 2 == 0 { Some(n * 11) } else { None };
        let exists = n > 0;
        file.extend(logger.log_run(exists, &run).unwrap());
        appended.push(run);
        let loaded = logger.load_factor_logs("smb", Some(&file)).unwrap();
        assert_eq!(loaded.len(), n + 1);
        assert_eq!(loaded, appended);
        assert_eq!(loaded.last(), appended.last());
    }
}

#[test]
fn fields_with_commas_quotes_and_line_breaks_survive() {
    let logger = CsvLogger::new("logs".to_string());
    let mut run = sample_run("id, with \"quotes\"\nand a line break", None);
    run.factor = "smb,value".to_string();
    run.weighting_method = Some(" spaced ".to_string());
    let file = logger.log_run(false, &run).unwrap();
    let text = String::from_utf8(file.clone()).unwrap();
    assert!(text.contains("\"id, with \"\"quotes\"\"\nand a line break\""));
    assert!(text.contains("\"smb,value\""));
    let loaded = logger.load_factor_logs("other", Some(&file)).unwrap();
    assert_eq!(loaded, vec![run]);
}

#[test]
fn absent_and_unreadable_fields_are_read_as_absent() {
    let logger = CsvLogger::new("logs".to_string());
    let file = b"run_id,factor,breakpoint,min_assets,weighting_method,years,start_date\n\
                 r1,smb,abc,-4,,2.5,\n\
                 r2,,0.3,30.0,equal,,2023-01-01\n\
                 r3,value, 0.3,+12,market_cap,NaN,x\n";
    let runs = logger.load_factor_logs("smb", Some(&file[..])).unwrap();
    assert_eq!(runs.len(), 3);
    assert_eq!(runs[0].run_id, "r1");
    assert_eq!(runs[0].factor, "smb");
    assert_eq!(runs[0].breakpoint, None);
    assert_eq!(runs[0].min_assets, None);
    assert_eq!(runs[0].weighting_method, None);
    assert_eq!(runs[0].years, Some("2.5".to_string()));
    assert_eq!(runs[0].start_date, None);
    assert_eq!(runs[0].cumulative_returns, None);
    assert_eq!(runs[0].sharpe_ratio, None);
    assert_eq!(runs[0].end_date, None);
    assert_eq!(runs[1].factor, "");
    assert_eq!(runs[1].breakpoint, Some("0.3".to_string()));
    assert_eq!(runs[1].min_assets, None);
    assert_eq!(runs[1].weighting_method, Some("equal".to_string()));
    assert_eq!(runs[1].years, None);
    assert_eq!(runs[1].start_date, Some("2023-01-01".to_string()));
    assert_eq!(runs[2].factor, "value");
    assert_eq!(runs[2].breakpoint, None);
    assert_eq!(runs[2].min_assets, Some(12));
    assert_eq!(runs[2].years, Some("NaN".to_string()));
}

#[test]
fn a_log_without_a_factor_column_takes_the_factor_asked_for() {
    let logger = CsvLogger::new("logs".to_string());
    let file = b"run_id,years\nr1,1.5\n";
    let runs = logger.load_factor_logs("momentum", Some(&file[..])).unwrap();
    assert_eq!(runs.len(), 1);
    assert_eq!(runs[0].run_id, "r1");
    assert_eq!(runs[0].factor, "momentum");
    assert_eq!(runs[0].years, Some("1.5".to_string()));
    let no_id = b"years\n1.5\n";
    let runs = logger.load_factor_logs("momentum", Some(&no_id[..])).unwrap();
    assert_eq!(runs[0].run_id, "");
}

#[test]
fn the_last_of_two_columns_of_one_name_counts() {
    let header = strings(&["run_id", "years", "years"]);
    let row = strings(&["r1", "1.5", "2.5"]);
    let run = run_from_record(&header, &row, "smb");
    assert_eq!(run.years, Some("2.5".to_string()));
    let short = strings(&["r1", "1.5"]);
    let run = run_from_record(&header, &short, "smb");
    assert_eq!(run.years, None);
    assert_eq!(run.run_id, "r1");
}

#[test]
fn empty_and_header_only_logs_hold_no_run() {
    let logger = CsvLogger::new("logs".to_string());
    assert_eq!(logger.load_factor_logs("smb", Some(&b""[..])), Ok(vec![]));
    assert_eq!(
        logger.load_factor_logs("smb", Some(&b"run_id,factor\n"[..])),
        Ok(vec![])
    );
    assert_eq!(runs_from_records(&vec![], "smb"), vec![]);
    assert_eq!(runs_from_records(&vec![run_header_row()], "smb"), vec![]);
}

#[test]
fn a_ragged_log_is_a_csv_error() {
    let logger = CsvLogger::new("logs".to_string());
    let file = b"run_id,factor\nr1,smb,extra\n";
    assert!(matches!(
        logger.load_factor_logs("smb", Some(&file[..])),
        Err(Error::Csv(_))
    ));
    assert!(matches!(
        logger.load_time_series("smb", "r1", Some(&file[..])),
        Err(Error::Csv(_))
    ));
    let not_text = [b'a', b',', 0xff, 0xfe, b'\n'];
    assert!(matches!(
        logger.load_factor_logs("smb", Some(&not_text[..])),
        Err(Error::Csv(_))
    ));
}

#[test]
fn missing_files_mean_no_runs_but_no_series() {
    let logger = CsvLogger::new("logs".to_string());
    assert_eq!(
        logger.load_factor_logs("nonexistent-factor", None),
        Ok(vec![])
    );
    assert_eq!(
        logger.load_time_series("f", "nonexistent-run", None),
        Err(Error::NotFound(
            "Time series file not found: f_nonexistent-run_returns.csv".to_string()
        ))
    );
}

#[test]
fn rows_of_a_run() {
    let run = sample_run("r", Some("1.2"));
    assert_eq!(
        run_header_row(),
        strings(&[
            "run_id",
            "factor",
            "breakpoint",
            "min_assets",
            "weighting_method",
            "cumulative_returns",
            "annualized_return",
            "years",
            "sharpe_ratio",
            "sortino_ratio",
            "long_only_returns",
            "short_only_returns",
            "start_date",
            "end_date",
        ])
    );
    let row = strings(&[
        "r", "smb", "0.3", "30", "equal", "0.5", "0.15", "2.5", "1.2", "", "-0.3", "1e-3",
        "2023-01-01", "",
    ]);
    assert_eq!(run_record_row(&run), row);
    assert_eq!(run_log_rows(true, &run), vec![row.clone()]);
    assert_eq!(run_log_rows(false, &run), vec![run_header_row(), row.clone()]);
    assert_eq!(run_from_record(&run_header_row(), &row, "other"), run);
}

#[test]
fn series_round_trip_entry_for_entry() {
    let logger = CsvLogger::new("logs".to_string());
    let dates = strings(&["2023-01-01", "2023-01-08", "2023-01-15", "2023-01-22"]);
    let returns: Vec<f64> = vec![0.01, -0.02, 0.0, 1.0e-7];
    let cumulative: Vec<f64> = vec![0.01, -0.0102, -0.0102, -0.010199901];
    let file = logger
        .save_time_series(&dates, &texts_of(&returns), &texts_of(&cumulative))
        .unwrap();
    assert_eq!(
        String::from_utf8(file.clone()).unwrap(),
        "date,return,cumulative_return\n\
         2023-01-01,0.01,0.01\n\
         2023-01-08,-0.02,-0.0102\n\
         2023-01-15,0,-0.0102\n\
         2023-01-22,0.0000001,-0.010199901\n"
    );
    let (d, r, c) = logger.load_time_series("smb", "run", Some(&file)).unwrap();
    assert_eq!(d, dates);
    assert_eq!(numbers(&r), returns);
    assert_eq!(numbers(&c), cumulative);
    assert_eq!(r, texts_of(&returns));
    assert_eq!(c, texts_of(&cumulative));
}

#[test]
fn an_empty_series_round_trips() {
    let logger = CsvLogger::new("logs".to_string());
    let file = logger.save_time_series(&vec![], &vec![], &vec![]).unwrap();
    assert_eq!(String::from_utf8(file.clone()).unwrap(), "date,return,cumulative_return\n");
    assert_eq!(
        logger.load_time_series("smb", "run", Some(&file)),
        Ok((vec![], vec![], vec![]))
    );
    assert_eq!(
        logger.load_time_series("smb", "run", Some(&b""[..])),
        Ok((vec![], vec![], vec![]))
    );
}

#[test]
fn series_of_unequal_length_are_refused() {
    let logger = CsvLogger::new("logs".to_string());
    let refused = Err(Error::InvalidInput(
        "dates, returns and cumulative returns differ in length".to_string(),
    ));
    let two = strings(&["2023-01-01", "2023-01-08"]);
    let one = strings(&["0.01"]);
    assert_eq!(logger.save_time_series(&two, &one, &two), refused);
    assert_eq!(logger.save_time_series(&two, &two, &one), refused);
    assert_eq!(logger.save_time_series(&one, &two, &two), refused);
    assert_eq!(logger.save_time_series(&vec![], &one, &one), refused);
    assert!(series_records(&two, &one, &two).is_err());
    assert!(logger.save_time_series(&two, &two, &two).is_ok());
    assert!(logger.save_time_series(&vec![], &vec![], &vec![]).is_ok());
}

#[test]
fn series_rows_without_numbers_are_passed_over() {
    let logger = CsvLogger::new("logs".to_string());
    let file = b"date,return,cumulative_return\n\
                 2023-01-01,0.01,0.01\n\
                 2023-01-08,n/a,0.02\n\
                 2023-01-15,0.03,\n\
                 ,0.04,0.05\n\
                 2023-01-29,5e-2,inf\n";
    let (dates, returns, cumulative) = logger
        .load_time_series("smb", "run", Some(&file[..]))
        .unwrap();
    assert_eq!(dates, strings(&["2023-01-01", "", "2023-01-29"]));
    assert_eq!(returns, strings(&["0.01", "0.04", "5e-2"]));
    assert_eq!(cumulative, strings(&["0.01", "0.05", "inf"]));
    let no_date_column = vec![strings(&["return", "cumulative_return"]), strings(&["1", "2"])];
    assert_eq!(series_from_records(&no_date_column), (vec![], vec![], vec![]));
    let swapped = vec![
        strings(&["cumulative_return", "date", "return"]),
        strings(&["0.5", "2023-01-01", "0.1"]),
    ];
    assert_eq!(
        series_from_records(&swapped),
        (strings(&["2023-01-01"]), strings(&["0.1"]), strings(&["0.5"]))
    );
}

#[test]
fn run_ids_are_a_stamp_and_a_token() {
    let id = CsvLogger::generate_run_id();
    let chars: Vec<char> = id.chars().collect();
    assert_eq!(chars.len(), 15 + 1 + 36);
    assert!(chars[..8].iter().all(|c| c.is_ascii_digit()));
    assert_eq!(chars[8], '_');
    assert!(chars[9..15].iter().all(|c| c.is_ascii_digit()));
    assert_eq!(chars[15], '_');
    let token = &chars[16..];
    for (i, c) in token.iter().enumerate() {
        if i == 8 || i == 13 || i == 18 || i == 23 {
            assert_eq!(*c, '-');
        } else {
            assert!(c.is_ascii_digit() || ('a'..='f').contains(c));
        }
    }
    assert_ne!(CsvLogger::generate_run_id(), CsvLogger::generate_run_id());
    assert_eq!(compose_run_id("20230101_120000", "abc"), "20230101_120000_abc");
    assert_eq!(compose_run_id("", ""), "_");
}

#[test]
fn file_names() {
    assert_eq!(CsvLogger::summary_file_name("smb"), "smb.csv");
    assert_eq!(
        CsvLogger::series_file_name("smb", "20230101_120000_abc"),
        "smb_20230101_120000_abc_returns.csv"
    );
    assert_eq!(CsvLogger::new("dir".to_string()).logs_dir, "dir");
}

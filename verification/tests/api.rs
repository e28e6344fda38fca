use factors_rs::api::factors::{
    available_factors, check_factor, clip_range, clip_series, default_limit, default_true,
    is_available_factor, last_logs, latest_log, select_factors, FactorLogsQuery, TimeSeriesQuery,
};
use factors_rs::error::Error;
use factors_rs::models::{FactorPerformance, FactorReturns};

fn strings(items: &[&str]) -> Vec<String> {
    items.iter().map(|s| s.to_string()).collect()
}

fn run(run_id: &str) -> FactorPerformance {
    FactorPerformance {
        run_id: run_id.to_string(),
        factor: "smb".to_string(),
        breakpoint: None,
        min_assets: None,
        weighting_method: None,
        cumulative_returns: None,
        annualized_return: None,
        years: None,
        sharpe_ratio: None,
        sortino_ratio: None,
        long_only_returns: None,
        short_only_returns: None,
        start_date: None,
        end_date: None,
    }
}

#[test]
fn the_factors_of_the_service() {
    assert_eq!(
        available_factors(),
        vec!["smb", "market", "value", "momentum", "momentum_v2", "growth"]
    );
    for name in available_factors() {
        assert!(is_available_factor(name));
        assert_eq!(check_factor(name), Ok(()));
    }
    for name in ["", "SMB", "smb ", "momentum_v3", "size"] {
        assert!(!is_available_factor(name));
    }
    assert_eq!(
        check_factor("size"),
        Err(Error::NotFound("Factor 'size' not found".to_string()))
    );
}

#[test]
fn query_defaults() {
    assert_eq!(default_limit(), 10);
    assert!(default_true());
    let logs = FactorLogsQuery {
        limit: default_limit(),
    };
    assert_eq!(logs.limit, 10);
    let series = TimeSeriesQuery {
        factors: None,
        start_date: None,
        end_date: None,
        normalize_to_100: default_true(),
    };
    assert!(series.normalize_to_100);
    assert_eq!(series.factors, None);
}

#[test]
fn the_last_runs_are_shown() {
    let logs: Vec<FactorPerformance> = (0..5).map(|n| run(&format!("r{}", n))).collect();
    assert_eq!(last_logs(logs.clone(), 2), logs[3..].to_vec());
    assert_eq!(last_logs(logs.clone(), 5), logs);
    assert_eq!(last_logs(logs.clone(), 10), logs);
    assert_eq!(last_logs(logs.clone(), 0), vec![]);
    assert_eq!(last_logs(logs.clone(), usize::MAX), logs);
    assert_eq!(last_logs(vec![], 3), vec![]);
}

#[test]
fn the_latest_run_is_the_one_appended_last() {
    let logs: Vec<FactorPerformance> = (0..3).map(|n| run(&format!("r{}", n))).collect();
    assert_eq!(latest_log("smb", logs), Ok(run("r2")));
    assert_eq!(
        latest_log("smb", vec![]),
        Err(Error::NotFound("No logs found for factor: smb".to_string()))
    );
}

#[test]
fn factors_are_selected_from_the_query() {
    assert_eq!(
        select_factors(None),
        strings(&["smb", "market", "value", "momentum", "momentum_v2", "growth"])
    );
    assert_eq!(select_factors(Some("smb,value")), strings(&["smb", "value"]));
    assert_eq!(
        select_factors(Some(" value , unknown,, smb ,")),
        strings(&["value", "smb"])
    );
    assert_eq!(select_factors(Some("growth,growth")), strings(&["growth", "growth"]));
    assert_eq!(select_factors(Some("")), strings(&[]));
    assert_eq!(select_factors(Some("SMB")), strings(&[]));
}

fn series() -> FactorReturns {
    FactorReturns {
        factor: "smb".to_string(),
        dates: strings(&["2023-01-01", "2023-01-08", "2023-01-15", "2023-01-22", "2023-01-29"]),
        returns: strings(&["0.01", "0.02", "0.03", "0.04", "0.05"]),
        cumulative_returns: strings(&["0.01", "0.0302", "0.06", "0.1", "0.15"]),
    }
}

fn reference_clip(
    dates: &[String],
    start: Option<&str>,
    end: Option<&str>,
) -> (usize, usize) {
    let mut low = 0;
    if let Some(start) = start {
        low = dates
            .iter()
            .position(|d| d.as_str() >= start)
            .unwrap_or(dates.len());
    }
    let mut high = dates.len();
    if let Some(end) = end {
        if let Some(j) = dates[low..].iter().position(|d| d.as_str() > end) {
            high = low + j;
        }
    }
    (low, high)
}

#[test]
fn date_ranges_cut_the_series() {
    let s = series();
    assert_eq!(clip_range(&s.dates, None, None), (0, 5));
    assert_eq!(clip_range(&s.dates, Some("2023-01-08"), None), (1, 5));
    assert_eq!(clip_range(&s.dates, Some("2023-01-09"), None), (2, 5));
    assert_eq!(clip_range(&s.dates, None, Some("2023-01-15")), (0, 3));
    assert_eq!(clip_range(&s.dates, None, Some("2023-01-14")), (0, 2));
    assert_eq!(clip_range(&s.dates, Some("2023-01-08"), Some("2023-01-22")), (1, 4));
    assert_eq!(clip_range(&s.dates, Some("2022"), Some("2024")), (0, 5));
    assert_eq!(clip_range(&s.dates, None, Some("2022-12-31")), (0, 0));
    assert_eq!(clip_range(&s.dates, Some("2023-01-22"), Some("2023-01-01")), (3, 3));
    // A start after every date leaves nothing.
    assert_eq!(clip_range(&s.dates, Some("2024-01-01"), None), (5, 5));
    assert_eq!(clip_range(&s.dates, Some("2024-01-01"), Some("2024-12-31")), (5, 5));
    assert_eq!(clip_range(&s.dates, Some("2023-01-09"), Some("2023-01-14")), (2, 2));
    assert_eq!(clip_range(&vec![], Some("2023-01-01"), Some("2023-12-31")), (0, 0));
    let bounds = [
        None,
        Some("2022-12-31"),
        Some("2023-01-01"),
        Some("2023-01-10"),
        Some("2023-01-29"),
        Some("2023-02-01"),
        Some(""),
        Some("zzz"),
    ];
    let unsorted = strings(&["2023-01-15", "2023-01-01", "2023-01-29", "2023-01-08"]);
    for start in bounds {
        for end in bounds {
            assert_eq!(
                clip_range(&s.dates, start, end),
                reference_clip(&s.dates, start, end)
            );
            assert_eq!(
                clip_range(&unsorted, start, end),
                reference_clip(&unsorted, start, end)
            );
        }
    }
}

#[test]
fn clipping_shows_exactly_the_dates_in_the_range() {
    let s = series();
    let bounds = [
        None,
        Some("2022-12-31"),
        Some("2023-01-01"),
        Some("2023-01-10"),
        Some("2023-01-15"),
        Some("2023-01-29"),
        Some("2023-02-01"),
    ];
    for start in bounds {
        for end in bounds {
            let shown = clip_series(&s, start, end);
            let mut dates = Vec::new();
            let mut returns = Vec::new();
            let mut cumulative = Vec::new();
            for i in 0..s.dates.len() {
                let d = s.dates[i].as_str();
                if start.map_or(true, |b| b <= d) && end.map_or(true, |b| d <= b) {
                    dates.push(s.dates[i].clone());
                    returns.push(s.returns[i].clone());
                    cumulative.push(s.cumulative_returns[i].clone());
                }
            }
            assert_eq!(shown.dates, dates);
            assert_eq!(shown.returns, returns);
            assert_eq!(shown.cumulative_returns, cumulative);
        }
    }
}

#[test]
fn a_range_that_holds_no_date_shows_nothing() {
    for (start, end) in [
        (Some("2024-01-01"), None),
        (Some("2024-01-01"), Some("2024-12-31")),
        (None, Some("2022-12-31")),
        (Some("2023-01-09"), Some("2023-01-14")),
        (Some("2023-01-22"), Some("2023-01-01")),
    ] {
        let shown = clip_series(&series(), start, end);
        assert_eq!(shown.factor, "smb");
        assert!(shown.dates.is_empty());
        assert!(shown.returns.is_empty());
        assert!(shown.cumulative_returns.is_empty());
    }
}

#[test]
fn clipping_cuts_all_three_columns_alike() {
    let shown = clip_series(&series(), Some("2023-01-08"), Some("2023-01-22"));
    assert_eq!(
        shown,
        FactorReturns {
            factor: "smb".to_string(),
            dates: strings(&["2023-01-08", "2023-01-15", "2023-01-22"]),
            returns: strings(&["0.02", "0.03", "0.04"]),
            cumulative_returns: strings(&["0.0302", "0.06", "0.1"]),
        }
    );
    assert_eq!(clip_series(&series(), None, None), series());
    let none = clip_series(&series(), None, Some("2000-01-01"));
    assert!(none.dates.is_empty() && none.returns.is_empty() && none.cumulative_returns.is_empty());
}

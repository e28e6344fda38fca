use factors_rs::data::artemis::{
    collect_batches, filter_crypto_symbols, flatten_response, keeps_symbol, metric_schema,
    ArtemisClient, AssetMetrics, BatchScheduler, MetricDataPoint, MetricRecord, MetricSeries,
    BATCH_SIZE, MAX_CONCURRENT_BATCHES,
};
use factors_rs::data::calendar::Date;
use factors_rs::data::table::{merge, merge_present, Table};
use factors_rs::data::ArtemisClient as ReexportedClient;
use factors_rs::error::Error;

fn strings(items: &[&str]) -> Vec<String> {
    items.iter().map(|s| s.to_string()).collect()
}

fn day(y: i32, m: u32, d: u32) -> Date {
    Date::from_ymd(y, m, d).unwrap()
}

fn client() -> ArtemisClient {
    ArtemisClient::new("test_key".to_string(), "https://api.artemis.xyz/v1".to_string())
}

#[test]
fn test_artemis_client_creation() {
    let client = ArtemisClient::new(
        "test_key".to_string(),
        "https://api.artemis.xyz/v1".to_string(),
    );
    assert_eq!(client.api_key, "test_key");
}

#[test]
fn client_addresses_and_header() {
    let client: ReexportedClient = client();
    assert_eq!(client.base_url, "https://api.artemis.xyz/v1");
    assert_eq!(client.symbols_url(), "https://api.artemis.xyz/v1/asset/symbols");
    assert_eq!(client.metrics_url(), "https://api.artemis.xyz/v1/metrics");
    assert_eq!(client.authorization(), "Bearer test_key");
}

#[test]
fn listing_is_filtered_down_to_crypto_symbols() {
    let listing = vec![
        Some("bitcoin".to_string()),
        None,
        Some("eq-aapl".to_string()),
        Some("usd".to_string()),
        Some("ethereum".to_string()),
        Some("M".to_string()),
        Some("eurc".to_string()),
        Some("some-eq-thing".to_string()),
        Some("usdc".to_string()),
        Some("m".to_string()),
        Some("".to_string()),
        Some("bitcoin".to_string()),
    ];
    assert_eq!(
        filter_crypto_symbols(&listing),
        strings(&["bitcoin", "ethereum", "usdc", "m", "", "bitcoin"])
    );
    assert!(filter_crypto_symbols(&vec![]).is_empty());
    assert!(filter_crypto_symbols(&vec![None, None]).is_empty());
    assert!(keeps_symbol("solana"));
    assert!(!keeps_symbol("eq-"));
    assert!(keeps_symbol("eq"));
    assert!(!keeps_symbol("usd"));
    assert!(keeps_symbol("USD"));
}

#[test]
fn batches_hold_five_symbols_at_most() {
    assert_eq!(BATCH_SIZE, 5);
    for n in 1..=23usize {
        let symbols: Vec<String> = (0..n).map(|i| format!("asset-{}", i)).collect();
        let batches = client()
            .plan_batches(&symbols, &strings(&["mc", "fees"]), day(2023, 1, 1), day(2023, 12, 31))
            .unwrap();
        assert_eq!(batches.len(), (n + 4) / 5, "{}", n);
        let mut seen: Vec<String> = Vec::new();
        for (k, batch) in batches.iter().enumerate() {
            assert!(!batch.symbols.is_empty() && batch.symbols.len() <= 5);
            if k + 1 < batches.len() {
                assert_eq!(batch.symbols.len(), 5);
            }
            assert_eq!(batch.metrics, "mc,fees");
            assert_eq!(batch.start_date, "2023-01-01");
            assert_eq!(batch.end_date, "2023-12-31");
            seen.extend(batch.symbols.iter().cloned());
        }
        assert_eq!(seen, symbols);
    }
}

#[test]
fn batches_of_seven_symbols() {
    let symbols = strings(&["a", "b", "c", "d", "e", "f", "g"]);
    let batches = client()
        .plan_batches(&symbols, &strings(&["mc", "fees", "dau"]), day(2024, 2, 29), day(2024, 3, 1))
        .unwrap();
    assert_eq!(batches.len(), 2);
    assert_eq!(batches[0].symbols, strings(&["a", "b", "c", "d", "e"]));
    assert_eq!(batches[1].symbols, strings(&["f", "g"]));
    assert_eq!(batches[1].metrics, "mc,fees,dau");
    assert_eq!(batches[1].start_date, "2024-02-29");
    assert_eq!(batches[1].end_date, "2024-03-01");
}

#[test]
fn batches_need_symbols_and_metrics() {
    let from = day(2023, 1, 1);
    let to = day(2023, 1, 2);
    assert_eq!(
        client().plan_batches(&vec![], &strings(&["mc"]), from, to),
        Err(Error::InvalidInput("No symbols provided".to_string()))
    );
    assert_eq!(
        client().plan_batches(&vec![], &vec![], from, to),
        Err(Error::InvalidInput("No symbols provided".to_string()))
    );
    assert_eq!(
        client().plan_batches(&strings(&["bitcoin"]), &vec![], from, to),
        Err(Error::InvalidInput("No metrics provided".to_string()))
    );
}

fn series(metric: &str, points: &[(&str, &str)]) -> MetricSeries {
    MetricSeries {
        metric: metric.to_string(),
        points: points
            .iter()
            .map(|(date, value)| MetricDataPoint {
                date: date.to_string(),
                value: value.to_string(),
            })
            .collect(),
    }
}

fn record(date: Date, asset: &str, metric: &str, value: &str) -> MetricRecord {
    MetricRecord {
        date,
        asset: asset.to_string(),
        metric: metric.to_string(),
        value: value.to_string(),
    }
}

#[test]
fn responses_flatten_into_long_form() {
    let response = vec![
        AssetMetrics {
            asset: "bitcoin".to_string(),
            metrics: vec![
                series("mc", &[("2023-01-01", "3.2e11"), ("2023-01-02", "3.3e11")]),
                series("fees", &[]),
                series("dau", &[("2023-01-01", "900000")]),
            ],
        },
        AssetMetrics {
            asset: "silent".to_string(),
            metrics: vec![],
        },
        AssetMetrics {
            asset: "ethereum".to_string(),
            metrics: vec![series("mc", &[("2023-01-02", "1.5e11")])],
        },
    ];
    let table = flatten_response(&response).unwrap();
    assert_eq!(table.columns, vec!["date", "asset", "metric", "value"]);
    assert_eq!(
        table.rows,
        vec![
            record(day(2023, 1, 1), "bitcoin", "mc", "3.2e11"),
            record(day(2023, 1, 2), "bitcoin", "mc", "3.3e11"),
            record(day(2023, 1, 1), "bitcoin", "dau", "900000"),
            record(day(2023, 1, 2), "ethereum", "mc", "1.5e11"),
        ]
    );
}

#[test]
fn a_response_without_points_is_a_provider_failure() {
    let no_points = Err(Error::DataFetch(
        "No data points in Artemis API response".to_string(),
    ));
    assert_eq!(flatten_response(&vec![]), no_points);
    let hollow = vec![AssetMetrics {
        asset: "bitcoin".to_string(),
        metrics: vec![series("mc", &[]), series("fees", &[])],
    }];
    assert_eq!(flatten_response(&hollow), no_points);
}

#[test]
fn an_unreadable_point_is_a_parse_error() {
    let bad_date = vec![AssetMetrics {
        asset: "bitcoin".to_string(),
        metrics: vec![series("mc", &[("2023-01-01", "1"), ("2023-02-30", "2")])],
    }];
    assert!(matches!(flatten_response(&bad_date), Err(Error::Parse(_))));
    let bad_value = vec![
        AssetMetrics {
            asset: "bitcoin".to_string(),
            metrics: vec![series("mc", &[("2023-01-01", "1")])],
        },
        AssetMetrics {
            asset: "ethereum".to_string(),
            metrics: vec![series("mc", &[("2023-01-01", "n/a")])],
        },
    ];
    assert!(matches!(flatten_response(&bad_value), Err(Error::Parse(_))));
}

fn table_of(rows: Vec<MetricRecord>) -> Table<MetricRecord> {
    Table {
        columns: metric_schema(),
        rows,
    }
}

#[test]
fn surviving_batches_are_stacked_in_order() {
    let first = record(day(2023, 1, 1), "bitcoin", "mc", "1");
    let second = record(day(2023, 1, 1), "ethereum", "mc", "2");
    let third = record(day(2023, 1, 2), "solana", "mc", "3");
    let outcomes = vec![
        Ok(table_of(vec![first.clone()])),
        Err(Error::DataFetch("Artemis API error 500".to_string())),
        Ok(table_of(vec![second.clone(), third.clone()])),
        Err(Error::Parse("bad body".to_string())),
    ];
    let table = collect_batches(outcomes).unwrap();
    assert_eq!(table.columns, vec!["date", "asset", "metric", "value"]);
    assert_eq!(table.rows, vec![first, second, third]);
}

#[test]
fn no_surviving_batch_fails_the_fetch() {
    let all_failed = Err(Error::DataFetch(
        "All batches failed, no data retrieved".to_string(),
    ));
    assert_eq!(collect_batches(vec![]), all_failed);
    assert_eq!(
        collect_batches(vec![
            Err(Error::DataFetch("a".to_string())),
            Err(Error::Parse("b".to_string())),
        ]),
        all_failed
    );
}

#[test]
fn merging_nothing_gives_the_empty_table_of_the_schema() {
    let merged: Table<MetricRecord> = merge(vec![], metric_schema());
    assert_eq!(merged.columns, vec!["date", "asset", "metric", "value"]);
    assert_eq!(merged.height(), 0);
    assert_eq!(merged.width(), 4);
    let merged: Table<MetricRecord> = merge_present(vec![None], metric_schema());
    assert_eq!(merged.columns, vec!["date", "asset", "metric", "value"]);
    assert!(merged.rows.is_empty());
}

#[test]
fn merging_keeps_the_columns_of_the_first_table() {
    let a = Table {
        columns: strings(&["x", "y"]),
        rows: vec![1, 2],
    };
    let b = Table {
        columns: strings(&["x", "z"]),
        rows: vec![3],
    };
    let c = Table {
        columns: strings(&["x", "y"]),
        rows: vec![4, 5],
    };
    let d: Table<i32> = Table::empty(strings(&["x", "y"]));
    let merged = merge(vec![a, b, c, d], strings(&["fallback"]));
    assert_eq!(merged.columns, strings(&["x", "y"]));
    assert_eq!(merged.rows, vec![1, 2, 4, 5]);
}

#[test]
fn never_more_than_four_batches_are_in_flight() {
    assert_eq!(MAX_CONCURRENT_BATCHES, 4);
    for total in 0..=11usize {
        let mut scheduler = BatchScheduler::new(total);
        let mut sent: Vec<usize> = Vec::new();
        let mut peak = 0;
        let mut rounds = 0;
        while !scheduler.is_complete() {
            loop {
                let (next, index) = scheduler.next_batch();
                scheduler = next;
                match index {
                    Some(i) => sent.push(i),
                    None => break,
                }
                assert!(scheduler.outstanding() <= 4);
            }
            peak = peak.max(scheduler.outstanding());
            assert_eq!(scheduler.outstanding(), (total - rounds).min(4));
            // One batch comes back, whether it succeeded or failed.
            scheduler = scheduler.release();
            rounds += 1;
            assert!(rounds <= total + 1);
        }
        assert_eq!(sent, (0..total).collect::<Vec<usize>>());
        assert_eq!(scheduler.dispatched(), total);
        assert_eq!(scheduler.outstanding(), 0);
        assert_eq!(peak, total.min(4));
    }
}

#[test]
fn a_full_scheduler_makes_the_next_batch_wait() {
    let mut scheduler = BatchScheduler::new(6);
    for expected in 0..4 {
        let (next, index) = scheduler.next_batch();
        assert_eq!(index, Some(expected));
        scheduler = next;
    }
    let (scheduler, index) = scheduler.next_batch();
    assert_eq!(index, None);
    assert_eq!(scheduler.outstanding(), 4);
    let scheduler = scheduler.release();
    assert_eq!(scheduler.outstanding(), 3);
    let (scheduler, index) = scheduler.next_batch();
    assert_eq!(index, Some(4));
    let (scheduler, index) = scheduler.next_batch();
    assert_eq!(index, None);
    let scheduler = scheduler.release().release();
    let (scheduler, index) = scheduler.next_batch();
    assert_eq!(index, Some(5));
    let (scheduler, index) = scheduler.next_batch();
    assert_eq!(index, None);
    assert_eq!(scheduler.outstanding(), 3);
    let scheduler = scheduler.release().release().release();
    assert!(scheduler.is_complete());
    let scheduler = scheduler.release();
    assert_eq!(scheduler.outstanding(), 0);
    assert!(scheduler.is_complete());
}

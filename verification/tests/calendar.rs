use chrono::{Datelike, NaiveDate};
use factors_rs::data::calendar::{Date, EPOCH_DAY, FIRST_DAY, LAST_DAY, SECONDS_PER_DAY};

#[test]
fn dates_agree_with_the_calendar() {
    let days = [
        (1, 1, 1),
        (1970, 1, 1),
        (2000, 2, 29),
        (2023, 1, 1),
        (2023, 12, 31),
        (2024, 2, 29),
        (9999, 12, 31),
    ];
    for (y, m, d) in days {
        let date = Date::from_ymd(y, m, d).unwrap();
        let naive = NaiveDate::from_ymd_opt(y, m, d).unwrap();
        assert_eq!(date.days(), naive.num_days_from_ce());
        assert_eq!(date.to_iso(), naive.format("%Y-%m-%d").to_string());
        assert_eq!(Date::parse_iso(&date.to_iso()), Some(date));
        assert_eq!(Date::from_day_number(date.days()), Some(date));
    }
    assert_eq!(Date::from_ymd(1970, 1, 1).unwrap().days(), EPOCH_DAY);
    assert_eq!(Date::from_ymd(1, 1, 1).unwrap().days(), FIRST_DAY);
    assert_eq!(Date::from_ymd(9999, 12, 31).unwrap().days(), LAST_DAY);
    assert_eq!(Date::from_ymd(2023, 1, 1).unwrap().to_iso(), "2023-01-01");
    assert_eq!(Date::from_ymd(2023, 1, 1).unwrap().days(), 738_521);
}

#[test]
fn days_that_do_not_exist_are_refused() {
    assert_eq!(Date::from_ymd(2023, 2, 29), None);
    assert_eq!(Date::from_ymd(2023, 13, 1), None);
    assert_eq!(Date::from_ymd(2023, 0, 1), None);
    assert_eq!(Date::from_ymd(2023, 4, 31), None);
    assert_eq!(Date::from_ymd(0, 12, 31), None);
    assert_eq!(Date::from_ymd(10000, 1, 1), None);
    assert_eq!(Date::from_ymd(-5, 1, 1), None);
    assert_eq!(Date::from_day_number(0), None);
    assert_eq!(Date::from_day_number(-1), None);
    assert_eq!(Date::from_day_number(LAST_DAY + 1), None);
    assert_eq!(Date::from_day_number(i32::MAX), None);
    assert_eq!(Date::from_day_number(i32::MIN), None);
    assert!(Date::from_day_number(FIRST_DAY).is_some());
    assert!(Date::from_day_number(LAST_DAY).is_some());
}

#[test]
fn iso_dates_parse_as_chrono_parses_them() {
    let texts = [
        "2023-01-01",
        "2023-12-31",
        "2024-02-29",
        "2023-02-29",
        "2023-1-1",
        "2023-01-01T00:00:00",
        "2023/01/01",
        "01-01-2023",
        "",
        "yesterday",
        " 2023-01-01",
        "2023-01-01 ",
        "0001-01-01",
        "9999-12-31",
    ];
    for text in texts {
        let expected = NaiveDate::parse_from_str(text, "%Y-%m-%d")
            .ok()
            .map(|d| d.num_days_from_ce());
        assert_eq!(Date::parse_iso(text).map(|d| d.days()), expected, "{:?}", text);
    }
    assert_eq!(Date::parse_iso("+10000-01-01"), None);
    assert_eq!(Date::parse_iso("0000-12-31"), None);
    assert_eq!(Date::parse_iso("2023-01-01").unwrap().days(), 738_521);
}

#[test]
fn timestamps_count_seconds_from_the_epoch() {
    let epoch = Date::from_ymd(1970, 1, 1).unwrap();
    assert_eq!(epoch.start_timestamp(), 0);
    assert_eq!(epoch.end_timestamp(), 86_399);
    let day = Date::from_ymd(2023, 1, 1).unwrap();
    assert_eq!(day.start_timestamp(), 1_672_531_200);
    assert_eq!(day.end_timestamp(), 1_672_617_599);
    assert_eq!(day.end_timestamp() - day.start_timestamp(), SECONDS_PER_DAY - 1);
    for (y, m, d) in [(1, 1, 1), (1969, 12, 31), (2000, 2, 29), (2038, 1, 19), (9999, 12, 31)] {
        let date = Date::from_ymd(y, m, d).unwrap();
        let naive = NaiveDate::from_ymd_opt(y, m, d).unwrap();
        assert_eq!(
            date.start_timestamp(),
            naive.and_hms_opt(0, 0, 0).unwrap().and_utc().timestamp()
        );
        assert_eq!(
            date.end_timestamp(),
            naive.and_hms_opt(23, 59, 59).unwrap().and_utc().timestamp()
        );
    }
    assert_eq!(Date::from_ymd(9999, 12, 31).unwrap().end_timestamp(), 253_402_300_799);
}

#[test]
fn not_after_orders_days() {
    let a = Date::from_ymd(2023, 1, 1).unwrap();
    let b = Date::from_ymd(2023, 1, 2).unwrap();
    assert!(a.not_after(&b));
    assert!(a.not_after(&a));
    assert!(!b.not_after(&a));
}

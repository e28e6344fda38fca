use factors_rs::text::{
    chars_of, contains_text, format_decimal, is_numeric_text, join, owned, parse_i64, parse_u64,
    same_text, same_texts, split_names, text_before, text_of,
};

fn strings(items: &[&str]) -> Vec<String> {
    items.iter().map(|s| s.to_string()).collect()
}

#[test]
fn characters_round_trip() {
    for text in ["", "a", "bitcoin", "24h_volume", "größe", "日本語 text"] {
        let chars = chars_of(text);
        assert_eq!(chars, text.chars().collect::<Vec<char>>());
        assert_eq!(text_of(&chars), text);
        assert_eq!(owned(text), text);
    }
}

#[test]
fn same_text_compares_contents() {
    assert!(same_text("usd", "usd"));
    assert!(!same_text("usd", "usdc"));
    assert!(!same_text("usd", "USD"));
    assert!(same_text("", ""));
    assert!(same_texts(&strings(&["date", "price"]), &strings(&["date", "price"])));
    assert!(!same_texts(&strings(&["date", "price"]), &strings(&["date"])));
    assert!(!same_texts(&strings(&["date", "price"]), &strings(&["price", "date"])));
    assert!(same_texts(&strings(&[]), &strings(&[])));
}

#[test]
fn unsigned_decimals_parse_as_in_std() {
    let cases = [
        "0",
        "7",
        "42",
        "+42",
        "007",
        "18446744073709551615",
        "18446744073709551616",
        "99999999999999999999",
        "",
        "+",
        "-",
        "-0",
        "-1",
        "4 2",
        " 42",
        "42 ",
        "4a",
        "++1",
        "1.0",
        "1e3",
        "٣",
    ];
    for text in cases {
        assert_eq!(parse_u64(text), text.parse::<u64>().ok(), "{:?}", text);
    }
    assert_eq!(parse_u64("1700000000"), Some(1_700_000_000));
}

#[test]
fn signed_decimals_parse_as_in_std() {
    let cases = [
        "0",
        "-0",
        "+0",
        "1672531200",
        "-1672531200",
        "+15",
        "9223372036854775807",
        "9223372036854775808",
        "-9223372036854775808",
        "-9223372036854775809",
        "",
        "+",
        "-",
        "--1",
        "+-1",
        "1-",
        "12x",
        " 1",
        "1.5",
    ];
    for text in cases {
        assert_eq!(parse_i64(text), text.parse::<i64>().ok(), "{:?}", text);
    }
    assert_eq!(parse_i64("-9223372036854775808"), Some(i64::MIN));
}

#[test]
fn numeric_texts_are_those_that_std_reads_as_numbers() {
    let cases = [
        "", "1", "-1", "+1", "1.5", ".5", "5.", ".", "+.", "-.", "e5", "1e5", "1E5", "1e+5",
        "1e-5", "1e", "1e+", "1e-", "1e5.5", "1e5e5", "inf", "-inf", "+inf", "+infinity",
        "Infinity", "INFINITY", "INF", "infinit", "infinite", "infinityy", "nan", "NaN", "NAN",
        "-nan", "+NaN", "nanx", "na", "i", "in", " 1", "1 ", "1_000", "0x10", "1.2.3", "--1",
        "+-1", "1f", "0.1", "0.0302", "1e400", "1e-400", "+", "-", "-.5e-3", "..", "1..", "e",
        "E10", ".e1", "1.e1", "1.e", "00012", "12.", "12.e-3", "0.5", "0.15", "2.5", "1.2",
        "-0.0", "1,5", "١", "1e١", "abc", "12abc", "١٢", "₁", "1\n", "\t1",
        "179769313486231570000000000000000000000000000000000000000000000000000000000000",
    ];
    for text in cases {
        assert_eq!(
            is_numeric_text(text),
            text.parse::<f64>().is_ok(),
            "{:?}",
            text
        );
    }
    for value in [0.3, 0.5, 0.15, 2.5, 1.2, 1.3, 0.2, 0.01, 0.02, 0.0302, -7.25e-9, 1e300] {
        let value: f64 = value;
        assert!(is_numeric_text(&value.to_string()));
    }
    assert!(is_numeric_text(&f64::NAN.to_string()));
    assert!(is_numeric_text(&f64::INFINITY.to_string()));
    assert!(is_numeric_text(&f64::NEG_INFINITY.to_string()));
}

#[test]
fn contains_text_finds_infixes() {
    let cases = [
        ("eq-aapl", "eq-"),
        ("aapl-eq-", "eq-"),
        ("xeq-y", "eq-"),
        ("eq", "eq-"),
        ("e-q-", "eq-"),
        ("bitcoin", "eq-"),
        ("", "eq-"),
        ("", ""),
        ("abc", ""),
        ("abc", "abc"),
        ("abc", "abcd"),
        ("aaab", "aab"),
        ("größe", "öß"),
    ];
    for (hay, needle) in cases {
        assert_eq!(contains_text(hay, needle), hay.contains(needle), "{:?} {:?}", hay, needle);
    }
}

#[test]
fn join_puts_the_separator_between_neighbours() {
    assert_eq!(join(&strings(&[]), ","), "");
    assert_eq!(join(&strings(&["mc"]), ","), "mc");
    assert_eq!(join(&strings(&["mc", "fees", "dau"]), ","), "mc,fees,dau");
    assert_eq!(join(&strings(&["", ""]), ","), ",");
    assert_eq!(join(&strings(&["a", "b"]), ", "), "a, b");
}

#[test]
fn split_names_trims_and_drops_empty_parts() {
    let cases = [
        "",
        ",",
        "smb",
        "smb,value",
        " smb , value ",
        "smb,,value,",
        ",smb",
        "  ",
        " , , ",
        "momentum_v2,\tgrowth\n",
        "a b, c",
        "\u{a0}smb\u{2003},\u{3000}",
    ];
    for text in cases {
        let expected: Vec<String> = text
            .split(',')
            .map(|s| s.trim().to_string())
            .filter(|s| !s.is_empty())
            .collect();
        assert_eq!(split_names(text), expected, "{:?}", text);
    }
    assert_eq!(split_names(" smb , value "), strings(&["smb", "value"]));
}

#[test]
fn format_decimal_writes_plain_digits() {
    for n in [0u64, 1, 9, 10, 30, 99, 100, 12345, 1_700_000_000, u64::MAX] {
        assert_eq!(format_decimal(n), n.to_string());
        assert_eq!(parse_u64(&format_decimal(n)), Some(n));
    }
    assert_eq!(format_decimal(30), "30");
}

#[test]
fn text_before_is_the_order_of_strings() {
    let texts = [
        "", "2023-01-01", "2023-01-08", "2023-12-31", "2024-01-01", "2023-01", "2023-01-010",
        "a", "B", "ab", "é", "z", "日",
    ];
    for a in texts {
        for b in texts {
            assert_eq!(text_before(a, b), a < b, "{:?} {:?}", a, b);
        }
    }
}

#[test]
fn format_signed_writes_the_sign_of_negative_numbers() {
    for n in [0i64, 1, -1, 42, -42, 1_672_531_200, -62_135_596_800, i64::MAX, i64::MIN] {
        assert_eq!(factors_rs::text::format_signed(n), n.to_string());
        assert_eq!(parse_i64(&factors_rs::text::format_signed(n)), Some(n));
    }
}

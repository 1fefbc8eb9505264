use lensup::decimal::decimal_string;
use lensup::month::month_label;
use lensup::parse_yyyy_mm;
use lensup::text::replace_bars;

#[test]
fn month_label_pads_year_and_month() {
    assert_eq!(month_label(2026, 3), "2026-03");
    assert_eq!(month_label(2026, 12), "2026-12");
    assert_eq!(month_label(5, 1), "0005-01");
    assert_eq!(month_label(12345, 7), "12345-07");
    // As `format!("{:04}", year)` writes a negative year.
    assert_eq!(month_label(-44, 3), format!("{:04}-{:02}", -44, 3));
    assert_eq!(month_label(-44, 3), "-044-03");
}

#[test]
fn month_label_reads_back() {
    for (y, m) in [(2026, 3), (0, 1), (9999, 12), (12345, 10)] {
        assert_eq!(parse_yyyy_mm(&month_label(y, m)), Some((y, m)));
    }
    // Not for negative years: the label has a second `-`.
    assert_eq!(parse_yyyy_mm(&month_label(-44, 3)), None);
}

#[test]
fn decimal_string_writes_digits() {
    assert_eq!(decimal_string(0), "0");
    assert_eq!(decimal_string(7), "7");
    assert_eq!(decimal_string(1234), "1234");
    assert_eq!(decimal_string(u64::MAX), u64::MAX.to_string());
}

#[test]
fn replace_bars_replaces_every_bar() {
    assert_eq!(replace_bars("a|b||c"), "a b  c");
    assert_eq!(replace_bars("无"), "无");
}

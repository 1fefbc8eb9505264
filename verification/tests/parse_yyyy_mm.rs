use lensup::parse_yyyy_mm;

#[test]
fn test_parse_yyyy_mm_valid() {
    assert_eq!(parse_yyyy_mm("2026-03"), Some((2026, 3)));
    assert_eq!(parse_yyyy_mm("2026-12"), Some((2026, 12)));
    assert_eq!(parse_yyyy_mm("2026-1"), Some((2026, 1)));
}

#[test]
fn test_parse_yyyy_mm_invalid() {
    assert_eq!(parse_yyyy_mm("2026-00"), None);
    assert_eq!(parse_yyyy_mm("2026-13"), None);
    assert_eq!(parse_yyyy_mm("2026"), None);
    assert_eq!(parse_yyyy_mm("abcd-ef"), None);
    assert_eq!(parse_yyyy_mm("2026-"), None);
}

#[test]
fn parse_yyyy_mm_reads_integers_as_str_parse_does() {
    // An explicit sign is accepted on the year, and only `+` on the month.
    assert_eq!(parse_yyyy_mm("+2026-+3"), Some((2026, 3)));
    assert_eq!(parse_yyyy_mm("-0044-03"), None);
    assert_eq!(parse_yyyy_mm("0044-03"), Some((44, 3)));
    assert_eq!(parse_yyyy_mm("2026--3"), None);
    assert_eq!(parse_yyyy_mm("2026-0003"), Some((2026, 3)));
    // Whitespace is not trimmed.
    assert_eq!(parse_yyyy_mm(" 2026-03"), None);
    assert_eq!(parse_yyyy_mm("2026-03 "), None);
    // Year limits of i32, and values beyond them.
    assert_eq!(parse_yyyy_mm("2147483647-12"), Some((i32::MAX, 12)));
    assert_eq!(parse_yyyy_mm("2147483648-12"), None);
    assert_eq!(parse_yyyy_mm("+-1-1"), None);
    assert_eq!(parse_yyyy_mm("1-4294967296"), None);
    assert_eq!(parse_yyyy_mm("2026-03-01"), None);
    assert_eq!(parse_yyyy_mm("-"), None);
    assert_eq!(parse_yyyy_mm(""), None);
    assert_eq!(parse_yyyy_mm("２０２６-03"), None);
}

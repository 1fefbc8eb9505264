use lensup::commits::{commits_for_report, parse_commit_log, select_commits, CommitRecord};
use lensup::month::checked_month_index;
use lensup::month_index;

const LOG: &str = "abcdef1234567890|2026-03-05T10:20:30+08:00|Fix crash\n\
badline without separators\n\
1111|not-a-date|subject\n\
2222222222|2026-02-28T23:59:59-05:00|a|b\n\
3333|2026-03-31T00:00:00Z|Last one\n";

#[test]
fn parse_commit_log_reads_hash_date_subject() {
    let cs = parse_commit_log(LOG);
    assert_eq!(cs.len(), 3);
    assert_eq!(cs[0].hash, "abcdef1234567890");
    assert_eq!(cs[0].date, "2026-03-05T10:20:30+08:00");
    assert_eq!(cs[0].subject, "Fix crash");
    assert_eq!((cs[0].year, cs[0].month), (2026, 3));
    // The subject is everything after the second `|`.
    assert_eq!(cs[1].hash, "2222222222");
    assert_eq!(cs[1].subject, "a|b");
    assert_eq!((cs[1].year, cs[1].month), (2026, 2));
    assert_eq!(cs[2].hash, "3333");
    assert_eq!((cs[2].year, cs[2].month), (2026, 3));
}

#[test]
fn parse_commit_log_writes_dates_as_chrono_does() {
    let cs = parse_commit_log(LOG);
    assert_eq!(cs[0].shown_time, "2026-03-05 10:20:30 +08:00");
    assert_eq!(cs[0].stamp, "2026-03-05T10:20:30+08:00");
    assert_eq!(cs[1].shown_time, "2026-02-28 23:59:59 -05:00");
    assert_eq!(cs[2].shown_time, "2026-03-31 00:00:00 +00:00");
    assert_eq!(cs[2].stamp, "2026-03-31T00:00:00+00:00");
}

#[test]
fn parse_commit_log_skips_unreadable_lines() {
    assert!(parse_commit_log("").is_empty());
    assert!(parse_commit_log("only|one separator").is_empty());
    assert!(parse_commit_log("h|2026-13-01T00:00:00Z|bad month").is_empty());
    assert!(parse_commit_log("h|2026-03-05|no time").is_empty());
    let cs = parse_commit_log("h|2026-03-05T10:20:30+08:00|windows line\r\n");
    assert_eq!(cs.len(), 1);
    assert_eq!(cs[0].subject, "windows line");
}

#[test]
fn commits_for_report_keeps_the_months_in_log_order() {
    let cs = commits_for_report(LOG, (2026, 3), (2026, 3), 0);
    let hashes: Vec<&str> = cs.iter().map(|c| c.hash.as_str()).collect();
    assert_eq!(hashes, vec!["abcdef1234567890", "3333"]);
    let cs = commits_for_report(LOG, (2026, 2), (2026, 3), 0);
    assert_eq!(cs.len(), 3);
    let cs = commits_for_report(LOG, (2026, 1), (2026, 1), 0);
    assert!(cs.is_empty());
}

#[test]
fn commits_for_report_applies_the_limit() {
    let cs = commits_for_report(LOG, (2026, 2), (2026, 3), 2);
    let hashes: Vec<&str> = cs.iter().map(|c| c.hash.as_str()).collect();
    assert_eq!(hashes, vec!["abcdef1234567890", "2222222222"]);
    // A limit of 0, or one above the count, keeps everything.
    assert_eq!(commits_for_report(LOG, (2026, 2), (2026, 3), 0).len(), 3);
    assert_eq!(commits_for_report(LOG, (2026, 2), (2026, 3), 10).len(), 3);
}

#[test]
fn select_commits_filters_by_month_index() {
    let all = parse_commit_log(LOG);
    let picked: Vec<CommitRecord> =
        select_commits(&all, month_index(2026, 2), month_index(2026, 2), 0);
    assert_eq!(picked.len(), 1);
    assert_eq!(picked[0].hash, "2222222222");
    let copy = picked[0].duplicate();
    assert_eq!(copy.subject, "a|b");
    assert_eq!(copy.stamp, picked[0].stamp);
}

#[test]
fn checked_month_index_detects_overflow() {
    assert_eq!(checked_month_index(2026, 3), Some(2026 * 12 + 3));
    assert_eq!(checked_month_index(-1, 12), Some(0));
    assert_eq!(checked_month_index(i32::MAX, 1), None);
    assert_eq!(checked_month_index(i32::MAX / 12, 12), None);
    assert_eq!(checked_month_index(i32::MAX / 12, 7), Some(i32::MAX));
}

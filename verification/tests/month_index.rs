use lensup::month::{report_months, in_month_range};
use lensup::month_index;

#[test]
fn test_month_index() {
    assert_eq!(month_index(2026, 3), 2026 * 12 + 3);
    assert_eq!(month_index(2000, 1), 2000 * 12 + 1);
    assert_eq!(month_index(0, 12), 0 * 12 + 12);
}

#[test]
fn month_index_orders_the_calendar() {
    assert!(month_index(2025, 12) < month_index(2026, 1));
    assert_eq!(month_index(2025, 12) + 1, month_index(2026, 1));
    assert!(month_index(2026, 2) < month_index(2026, 3));
    assert_ne!(month_index(2026, 1), month_index(2025, 13 - 1));
}

#[test]
fn report_months_fills_and_orders_bounds() {
    assert_eq!(report_months(None, None), None);
    assert_eq!(report_months(Some((2026, 3)), None), Some(((2026, 3), (2026, 3))));
    assert_eq!(report_months(None, Some((2026, 2))), Some(((2026, 2), (2026, 2))));
    assert_eq!(
        report_months(Some((2026, 3)), Some((2025, 11))),
        Some(((2025, 11), (2026, 3)))
    );
    assert_eq!(
        report_months(Some((2026, 2)), Some((2026, 3))),
        Some(((2026, 2), (2026, 3)))
    );
}

#[test]
fn in_month_range_is_inclusive() {
    let from = month_index(2026, 2);
    let to = month_index(2026, 3);
    assert!(in_month_range(2026, 2, from, to));
    assert!(in_month_range(2026, 3, from, to));
    assert!(!in_month_range(2026, 4, from, to));
    assert!(!in_month_range(2026, 1, from, to));
}

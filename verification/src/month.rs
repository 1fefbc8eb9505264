//! Months as the command line names them (`YYYY-MM`), their index on a
//! single time line, and the range of months a report covers.
use vstd::prelude::*;
use crate::decimal::{parse_i32, parse_u32, parse_i32_chars, parse_u32_chars};
use crate::text::{index_of, chars_of, find_char, sub_vec, lemma_index_of, string_from_chars};
use crate::decimal::{
    signed_padded, zero_padded, decimal_digits, signed_padded_chars, pad_with_zeros, decimal_chars,
    lemma_decimal_digits, lemma_zero_padded, is_digit,
};

verus! {

/// What `parse_yyyy_mm` reads from `s`: exactly one `-`, a year before it
/// and a month from 1 to 12 after it, each as `str::parse` reads integers.
pub open spec fn year_month_of(s: Seq<char>) -> Option<(i32, u32)> {
    let k = index_of(s, '-');
    let rest = s.skip((k + 1) as int);
    if k < s.len() && index_of(rest, '-') == rest.len() {
        match (parse_i32(s.take(k as int)), parse_u32(rest)) {
            (Some(y), Some(m)) => if 1 <= m <= 12 {
                Some((y, m))
            } else {
                None
            },
            _ => None,
        }
    } else {
        None
    }
}

/// Parses `YYYY-MM` (or `YYYY-M`) into `(year, month)`; `None` when the text
/// does not have that shape or the month is not from 1 to 12.
pub fn parse_yyyy_mm(s: &str) -> (r: Option<(i32, u32)>)
    ensures
        r == year_month_of(s@),
{
    let v = chars_of(s);
    let k = find_char(&v, 0, '-');
    assert(v@.skip(0) =~= v@);
    if k == v.len() {
        return None;
    }
    let k2 = find_char(&v, k + 1, '-');
    if k2 != v.len() {
        return None;
    }
    let year_part = sub_vec(&v, 0, k);
    let month_part = sub_vec(&v, k + 1, v.len());
    assert(year_part@ =~= v@.take(k as int));
    assert(month_part@ =~= v@.skip(k + 1));
    match (parse_i32_chars(&year_part), parse_u32_chars(&month_part)) {
        (Some(y), Some(m)) => {
            if m >= 1 && m <= 12 {
                Some((y, m))
            } else {
                None
            }
        },
        _ => None,
    }
}

/// The index of a month: twelve per year, so that later months have larger
/// indices.
pub open spec fn month_number(year: i32, month: u32) -> int {
    year * 12 + (month as i32)
}

/// `month_index(year, month)` can be computed in `i32`.
pub open spec fn month_index_fits(year: i32, month: u32) -> bool {
    &&& i32::MIN <= year * 12 <= i32::MAX
    &&& i32::MIN <= month_number(year, month) <= i32::MAX
}

/// The month index of `year` and `month`, or `None` when it cannot be
/// computed in `i32`.
pub fn checked_month_index(year: i32, month: u32) -> (r: Option<i32>)
    ensures
        r is Some <==> month_index_fits(year, month),
        r matches Some(i) ==> i == month_number(year, month),
{
    let m = month as i32;
    match year.checked_mul(12) {
        None => None,
        Some(y) => y.checked_add(m),
    }
}

/// Turns a year and month into a month index that grows with time, so that
/// month ranges can be compared.
pub fn month_index(year: i32, month: u32) -> (r: i32)
    requires
        month_index_fits(year, month),
    ensures
        r == month_number(year, month),
{
    year * 12 + month as i32
}

/// Month indices order months as the calendar does: year first, then month.
pub proof fn lemma_month_number_order(y1: i32, m1: u32, y2: i32, m2: u32)
    requires
        1 <= m1 <= 12,
        1 <= m2 <= 12,
    ensures
        month_number(y1, m1) < month_number(y2, m2) <==> (y1 < y2 || (y1 == y2 && m1 < m2)),
        month_number(y1, m1) == month_number(y2, m2) <==> (y1 == y2 && m1 == m2),
{
    assert((m1 as i32) as int == m1 as int);
    assert((m2 as i32) as int == m2 as int);
}

/// The month after `(year, month)` has the next index.
pub proof fn lemma_month_number_next(year: i32, month: u32)
    requires
        1 <= month <= 12,
        year < i32::MAX,
    ensures
        month < 12 ==> month_number(year, (month + 1) as u32) == month_number(year, month) + 1,
        month == 12 ==> month_number((year + 1) as i32, 1) == month_number(year, month) + 1,
{
    assert((month as i32) as int == month as int);
    assert(((month + 1) as u32 as i32) as int == month + 1);
}

/// The months that a report covers, from the bounds given: a single bound
/// covers its own month, and bounds given in reverse are swapped.
pub open spec fn report_range(
    from: Option<(i32, u32)>,
    to: Option<(i32, u32)>,
) -> Option<((i32, u32), (i32, u32))> {
    match (from, to) {
        (None, None) => None,
        (Some(f), None) => Some((f, f)),
        (None, Some(t)) => Some((t, t)),
        (Some(f), Some(t)) => if month_number(f.0, f.1) > month_number(t.0, t.1) {
            Some((t, f))
        } else {
            Some((f, t))
        },
    }
}

/// A bound whose month index can be computed.
pub open spec fn bound_fits(b: Option<(i32, u32)>) -> bool {
    b matches Some(p) ==> month_index_fits(p.0, p.1)
}

/// The first and last month of the report, from the `--from` and `--to`
/// bounds: one bound alone stands for both, and reversed bounds are swapped.
pub fn report_months(from: Option<(i32, u32)>, to: Option<(i32, u32)>) -> (r: Option<
    ((i32, u32), (i32, u32)),
>)
    requires
        bound_fits(from),
        bound_fits(to),
    ensures
        r == report_range(from, to),
{
    match (from, to) {
        (None, None) => None,
        (Some(f), None) => Some((f, f)),
        (None, Some(t)) => Some((t, t)),
        (Some(f), Some(t)) => {
            if month_index(f.0, f.1) > month_index(t.0, t.1) {
                Some((t, f))
            } else {
                Some((f, t))
            }
        },
    }
}

/// The report's months never run backwards, and its bounds are those given.
pub proof fn lemma_report_range_ordered(from: Option<(i32, u32)>, to: Option<(i32, u32)>)
    ensures
        report_range(from, to) matches Some(r) ==> month_number(r.0.0, r.0.1) <= month_number(
            r.1.0,
            r.1.1,
        ),
        report_range(from, to) matches Some(r) ==> (from == Some(r.0) || from == Some(r.1)
            || from is None),
        report_range(from, to) matches Some(r) ==> (to == Some(r.0) || to == Some(r.1) || to is None),
        report_range(from, to) is None <==> (from is None && to is None),
{
}

/// A month lies in the range `[from_idx, to_idx]` of month indices.
pub open spec fn month_in_range(year: i32, month: u32, from_idx: i32, to_idx: i32) -> bool {
    from_idx <= month_number(year, month) <= to_idx
}

/// Whether a commit's month lies in the report's range of month indices.
pub fn in_month_range(year: i32, month: u32, from_idx: i32, to_idx: i32) -> (r: bool)
    requires
        month_index_fits(year, month),
    ensures
        r == month_in_range(year, month, from_idx, to_idx),
{
    let idx = month_index(year, month);
    idx >= from_idx && idx <= to_idx
}

/// How the report writes a month: `format!("{:04}-{:02}", year, month)`.
pub open spec fn month_label_of(year: i32, month: u32) -> Seq<char> {
    signed_padded(year as int, 4) + seq!['-'] + zero_padded(decimal_digits(month as nat), 2)
}

/// Writes a month as the report names it, `YYYY-MM`.
pub fn month_label(year: i32, month: u32) -> (r: String)
    ensures
        r@ == month_label_of(year, month),
{
    let mut v = signed_padded_chars(year, 4);
    let m = pad_with_zeros(&decimal_chars(month as u64), 2);
    let ghost start = v@;
    v.push('-');
    let mut k: usize = 0;
    while k < m.len()
        invariant
            k <= m.len(),
            v@ == start + seq!['-'] + m@.take(k as int),
        decreases m.len() - k,
    {
        v.push(m[k]);
        k += 1;
        assert(v@ =~= start + seq!['-'] + m@.take(k as int));
    }
    assert(m@.take(m.len() as int) =~= m@);
    string_from_chars(&v)
}

/// A month written as the report names it reads back as that month, for
/// every year from 0 on.
pub proof fn lemma_month_label_parses_back(year: i32, month: u32)
    requires
        0 <= year,
        1 <= month <= 12,
    ensures
        year_month_of(month_label_of(year, month)) == Some((year, month)),
{
    let a = signed_padded(year as int, 4);
    let b = zero_padded(decimal_digits(month as nat), 2);
    let l = month_label_of(year, month);
    lemma_decimal_digits(year as nat);
    lemma_zero_padded(decimal_digits(year as nat), 4);
    lemma_decimal_digits(month as nat);
    lemma_zero_padded(decimal_digits(month as nat), 2);
    assert(l =~= a + seq!['-'] + b);
    assert forall|j: int| 0 <= j < a.len() implies l[j] != '-' by {
        assert(l[j] == a[j]);
        assert(is_digit(a[j]));
    }
    assert(l[a.len() as int] == '-');
    lemma_index_of(l, '-', a.len() as int);
    assert(l.skip((a.len() + 1) as int) =~= b);
    assert(l.take(a.len() as int) =~= a);
    assert forall|j: int| 0 <= j < b.len() implies b[j] != '-' by {
        assert(is_digit(b[j]));
    }
    lemma_index_of(b, '-', b.len() as int);
    assert(is_digit(a[0]));
    assert(is_digit(b[0]));
}

} // verus!

//! Commits as `git log --pretty=format:%H|%cI|%s` lists them, and the
//! commits a report takes: those of its months, at most a given number.
use vstd::prelude::*;
use crate::month::{month_index_fits, month_in_range, in_month_range, month_index, month_number};
use crate::decimal::{all_digits, digits_value};
use crate::text::{
    index_of, lines, chars_of, find_char, sub_vec, line_bounds, delimits, string_from_chars,
};

verus! {

/// Whether `chrono` accepts `s` as an RFC 3339 date and time
/// (`DateTime::parse_from_rfc3339` returns `Ok`).
pub uninterp spec fn rfc3339_accepts(s: Seq<char>) -> bool;

/// The text that `chrono` writes for the date and time `s` with the format
/// `%Y-%m-%d %H:%M:%S %:z` (`DelayedFormat` shown by `to_string`).
pub uninterp spec fn shown_time(s: Seq<char>) -> Seq<char>;

/// The text that `chrono`'s `DateTime::to_rfc3339` writes for the date and
/// time `s`.
pub uninterp spec fn rfc3339_text(s: Seq<char>) -> Seq<char>;

/// Calls `chrono::DateTime::parse_from_rfc3339`, then reads the local year
/// and month of the result (`Datelike::year`, `Datelike::month`) and writes
/// it with `format("%Y-%m-%d %H:%M:%S %:z")` and with `to_rfc3339`.
/// Claimed: it succeeds exactly when `rfc3339_accepts` holds; then the text
/// begins with four digits, `-`, two digits, the year and month are the
/// numbers those digits write, the month from 1 to 12, and the two texts
/// are `shown_time` and `rfc3339_text` of the argument. Nothing is claimed
/// of which texts `chrono` accepts or of how it writes them.
#[verifier::external_body]
fn read_commit_date(s: &str) -> (r: Option<(i32, u32, String, String)>)
    ensures
        r is Some <==> rfc3339_accepts(s@),
        r matches Some(p) ==> {
            &&& s@.len() >= 19
            &&& all_digits(s@.take(4))
            &&& s@[4] == '-'
            &&& all_digits(s@.subrange(5, 7))
            &&& p.0 == digits_value(s@.take(4))
            &&& p.1 == digits_value(s@.subrange(5, 7))
            &&& 1 <= p.1 <= 12
            &&& p.2@ == shown_time(s@)
            &&& p.3@ == rfc3339_text(s@)
        },
{
    match chrono::DateTime::parse_from_rfc3339(s) {
        Ok(dt) => Some((
            chrono::Datelike::year(&dt),
            chrono::Datelike::month(&dt),
            dt.format("%Y-%m-%d %H:%M:%S %:z").to_string(),
            dt.to_rfc3339(),
        )),
        Err(_) => None,
    }
}

/// A commit of the log: its hash, its commit date as written, its subject,
/// the year and month of that date, and the date as the report shows it and
/// in RFC 3339 form as `chrono` writes them.
pub struct CommitRecord {
    pub hash: String,
    pub date: String,
    pub subject: String,
    pub year: i32,
    pub month: u32,
    pub shown_time: String,
    pub stamp: String,
}

/// The mathematical value of a commit record.
pub struct CommitView {
    pub hash: Seq<char>,
    pub date: Seq<char>,
    pub subject: Seq<char>,
    pub year: i32,
    pub month: u32,
    pub shown_time: Seq<char>,
    pub stamp: Seq<char>,
}

impl View for CommitRecord {
    type V = CommitView;

    open spec fn view(&self) -> CommitView {
        CommitView {
            hash: self.hash@,
            date: self.date@,
            subject: self.subject@,
            year: self.year,
            month: self.month,
            shown_time: self.shown_time@,
            stamp: self.stamp@,
        }
    }
}

/// The year that a date written `YYYY-MM-...` names.
pub open spec fn written_year(d: Seq<char>) -> int {
    digits_value(d.take(4))
}

/// The month that a date written `YYYY-MM-...` names.
pub open spec fn written_month(d: Seq<char>) -> int {
    digits_value(d.subrange(5, 7))
}

/// The commit that a log line `hash|date|subject` describes: the line is cut
/// at its first two `|`, and the date must be one that `chrono` reads.
pub open spec fn commit_of_line(l: Seq<char>) -> Option<CommitView> {
    let i = index_of(l, '|');
    let rest = l.skip((i + 1) as int);
    let j = index_of(rest, '|');
    let d = rest.take(j as int);
    if i < l.len() && j < rest.len() && rfc3339_accepts(d) {
        Some(
            CommitView {
                hash: l.take(i as int),
                date: d,
                subject: rest.skip((j + 1) as int),
                year: written_year(d) as i32,
                month: written_month(d) as u32,
                shown_time: shown_time(d),
                stamp: rfc3339_text(d),
            },
        )
    } else {
        None
    }
}

/// The commits that the lines `ls` describe, in order.
pub open spec fn commits_of_lines(ls: Seq<Seq<char>>) -> Seq<CommitView>
    decreases ls.len(),
{
    if ls.len() == 0 {
        seq![]
    } else {
        let prev = commits_of_lines(ls.drop_last());
        match commit_of_line(ls.last()) {
            Some(c) => prev.push(c),
            None => prev,
        }
    }
}

/// The commits of a `git log` listing, one per line that describes one.
pub open spec fn commits_of_log(log: Seq<char>) -> Seq<CommitView> {
    commits_of_lines(lines(log))
}

/// The views of a list of records.
pub open spec fn record_views(rs: Seq<CommitRecord>) -> Seq<CommitView> {
    rs.map_values(|c: CommitRecord| c@)
}

/// Every commit read from a log has a year from 0 to 9999 and a month from
/// 1 to 12.
pub open spec fn dates_in_calendar(cs: Seq<CommitView>) -> bool {
    forall|i: int| 0 <= i < cs.len() ==> 0 <= #[trigger] cs[i].year <= 9999 && 1 <= cs[i].month <= 12
}

/// The commit described by the line `v[lo..hi]`.
fn commit_in_line(v: &Vec<char>, lo: usize, hi: usize) -> (r: Option<CommitRecord>)
    requires
        lo <= hi <= v.len(),
    ensures
        r is Some <==> commit_of_line(v@.subrange(lo as int, hi as int)) is Some,
        r matches Some(c) ==> commit_of_line(v@.subrange(lo as int, hi as int)) == Some(c@),
        r matches Some(c) ==> 0 <= c.year <= 9999 && 1 <= c.month <= 12,
{
    let line = sub_vec(v, lo, hi);
    let ghost l = line@;
    let i = find_char(&line, 0, '|');
    assert(line@.skip(0) =~= l);
    if i == line.len() {
        return None;
    }
    let j = find_char(&line, i + 1, '|');
    let ghost rest = l.skip((i + 1) as int);
    if j == line.len() {
        return None;
    }
    let hash = sub_vec(&line, 0, i);
    let date = sub_vec(&line, i + 1, j);
    let subject = sub_vec(&line, j + 1, line.len());
    assert(hash@ =~= l.take(i as int));
    assert(date@ =~= rest.take((j - (i + 1)) as int));
    assert(subject@ =~= rest.skip((j - (i + 1) + 1) as int));
    let date_text = string_from_chars(&date);
    match read_commit_date(date_text.as_str()) {
        None => None,
        Some((year, month, shown, stamp)) => {
            proof {
                crate::decimal::lemma_digits_value_nonneg(date@.take(4));
                lemma_four_digits_at_most(date@.take(4));
            }
            Some(
                CommitRecord {
                    hash: string_from_chars(&hash),
                    date: date_text,
                    subject: string_from_chars(&subject),
                    year,
                    month,
                    shown_time: shown,
                    stamp,
                },
            )
        },
    }
}

/// Four digits write at most 9999.
proof fn lemma_four_digits_at_most(d: Seq<char>)
    requires
        d.len() == 4,
        all_digits(d),
    ensures
        digits_value(d) <= 9999,
{
    assert(crate::decimal::is_digit(d[0]));
    assert(crate::decimal::is_digit(d[1]));
    assert(crate::decimal::is_digit(d[2]));
    assert(crate::decimal::is_digit(d[3]));
    assert(d.drop_last().drop_last().drop_last().drop_last() =~= Seq::<char>::empty());
    reveal_with_fuel(digits_value, 5);
}

/// Reads the commits of a `git log --pretty=format:%H|%cI|%s` listing: each
/// line is cut at its first two `|` into hash, commit date and subject, and
/// lines without two `|` or with a date that `chrono` cannot read are left
/// out.
pub fn parse_commit_log(log: &str) -> (r: Vec<CommitRecord>)
    ensures
        record_views(r@) == commits_of_log(log@),
        dates_in_calendar(record_views(r@)),
{
    let v = chars_of(log);
    let bounds = line_bounds(&v);
    let ghost ls = lines(v@);
    let mut out: Vec<CommitRecord> = Vec::new();
    let mut k: usize = 0;
    assert(ls.take(0) =~= Seq::<Seq<char>>::empty());
    while k < bounds.len()
        invariant
            k <= bounds.len(),
            ls == lines(v@),
            delimits(v@, bounds@, ls),
            record_views(out@) == commits_of_lines(ls.take(k as int)),
            dates_in_calendar(record_views(out@)),
        decreases bounds.len() - k,
    {
        let (lo, hi) = bounds[k];
        assert(bounds@[k as int] == (lo, hi));
        assert(v@.subrange(lo as int, hi as int) == ls[k as int]);
        assert(ls.take(k + 1).drop_last() =~= ls.take(k as int));
        assert(ls.take(k + 1).last() == ls[k as int]);
        let found = commit_in_line(&v, lo, hi);
        let ghost before = out@;
        match found {
            Some(c) => {
                out.push(c);
                assert(record_views(out@) =~= record_views(before).push(c@));
            },
            None => {},
        }
        k += 1;
    }
    assert(ls.take(k as int) =~= ls);
    out
}

/// The commits of `cs` whose month lies in `[from_idx, to_idx]`.
pub open spec fn commits_between(cs: Seq<CommitView>, from_idx: i32, to_idx: i32) -> Seq<
    CommitView,
>
    decreases cs.len(),
{
    if cs.len() == 0 {
        seq![]
    } else {
        let prev = commits_between(cs.drop_last(), from_idx, to_idx);
        if month_in_range(cs.last().year, cs.last().month, from_idx, to_idx) {
            prev.push(cs.last())
        } else {
            prev
        }
    }
}

/// The commits that a report analyses: those in its months, cut to the
/// first `limit` of them when `limit` is not 0.
pub open spec fn report_commits(cs: Seq<CommitView>, from_idx: i32, to_idx: i32, limit: usize) -> Seq<
    CommitView,
> {
    let picked = commits_between(cs, from_idx, to_idx);
    if limit > 0 && picked.len() > limit {
        picked.take(limit as int)
    } else {
        picked
    }
}

/// Every record's month index can be computed.
pub open spec fn indices_fit(cs: Seq<CommitView>) -> bool {
    forall|i: int| 0 <= i < cs.len() ==> month_index_fits(#[trigger] cs[i].year, cs[i].month)
}

impl CommitRecord {
    /// A copy of the record.
    pub fn duplicate(&self) -> (r: CommitRecord)
        ensures
            r@ == self@,
    {
        CommitRecord {
            hash: self.hash.clone(),
            date: self.date.clone(),
            subject: self.subject.clone(),
            year: self.year,
            month: self.month,
            shown_time: self.shown_time.clone(),
            stamp: self.stamp.clone(),
        }
    }
}

/// Keeps the commits whose month lies in `[from_idx, to_idx]`, in order, and
/// then at most the first `limit` of them when `limit` is not 0.
pub fn select_commits(commits: &Vec<CommitRecord>, from_idx: i32, to_idx: i32, limit: usize) -> (r:
    Vec<CommitRecord>)
    requires
        indices_fit(record_views(commits@)),
    ensures
        record_views(r@) == report_commits(record_views(commits@), from_idx, to_idx, limit),
{
    let ghost all = record_views(commits@);
    let mut picked: Vec<CommitRecord> = Vec::new();
    let mut k: usize = 0;
    assert(all.take(0) =~= Seq::<CommitView>::empty());
    while k < commits.len()
        invariant
            k <= commits.len(),
            all == record_views(commits@),
            indices_fit(all),
            record_views(picked@) == commits_between(all.take(k as int), from_idx, to_idx),
        decreases commits.len() - k,
    {
        let c = &commits[k];
        assert(all[k as int] == c@);
        assert(all.take(k + 1).drop_last() =~= all.take(k as int));
        assert(all.take(k + 1).last() == c@);
        assert(month_index_fits(all[k as int].year, all[k as int].month));
        let ghost before = picked@;
        if in_month_range(c.year, c.month, from_idx, to_idx) {
            picked.push(c.duplicate());
            assert(record_views(picked@) =~= record_views(before).push(c@));
        }
        k += 1;
    }
    assert(all.take(k as int) =~= all);
    if limit > 0 && picked.len() > limit {
        let ghost before = picked@;
        picked.truncate(limit);
        assert(record_views(picked@) =~= record_views(before).take(limit as int));
    }
    picked
}

/// Commits read from a log always have a month index.
proof fn lemma_calendar_indices_fit(cs: Seq<CommitView>)
    requires
        dates_in_calendar(cs),
    ensures
        indices_fit(cs),
{
    assert forall|i: int| 0 <= i < cs.len() implies month_index_fits(
        #[trigger] cs[i].year,
        cs[i].month,
    ) by {
        assert(0 <= cs[i].year <= 9999 && 1 <= cs[i].month <= 12);
    }
}

/// The commits that a report over the months `from` to `to` analyses, read
/// from a `git log --pretty=format:%H|%cI|%s` listing: those of its months,
/// in the log's order, and at most the first `limit` of them when `limit`
/// is not 0.
pub fn commits_for_report(log: &str, from: (i32, u32), to: (i32, u32), limit: usize) -> (r: Vec<
    CommitRecord,
>)
    requires
        month_index_fits(from.0, from.1),
        month_index_fits(to.0, to.1),
    ensures
        record_views(r@) == report_commits(
            commits_of_log(log@),
            month_number(from.0, from.1) as i32,
            month_number(to.0, to.1) as i32,
            limit,
        ),
{
    let all = parse_commit_log(log);
    proof {
        lemma_calendar_indices_fit(record_views(all@));
    }
    let from_idx = month_index(from.0, from.1);
    let to_idx = month_index(to.0, to.1);
    select_commits(&all, from_idx, to_idx, limit)
}

/// The commits of a month range lie in it, and are no more than all.
proof fn lemma_commits_between(cs: Seq<CommitView>, from_idx: i32, to_idx: i32)
    ensures
        commits_between(cs, from_idx, to_idx).len() <= cs.len(),
        forall|i: int|
            0 <= i < commits_between(cs, from_idx, to_idx).len() ==> month_in_range(
                (#[trigger] commits_between(cs, from_idx, to_idx)[i]).year,
                commits_between(cs, from_idx, to_idx)[i].month,
                from_idx,
                to_idx,
            ),
    decreases cs.len(),
{
    if cs.len() > 0 {
        lemma_commits_between(cs.drop_last(), from_idx, to_idx);
    }
}

/// Every commit a report analyses lies in the report's months, and there
/// are at most `limit` of them when `limit` is not 0.
pub proof fn lemma_report_commits_in_range(
    cs: Seq<CommitView>,
    from_idx: i32,
    to_idx: i32,
    limit: usize,
)
    ensures
        report_commits(cs, from_idx, to_idx, limit).len() <= cs.len(),
        limit > 0 ==> report_commits(cs, from_idx, to_idx, limit).len() <= limit,
        forall|i: int|
            0 <= i < report_commits(cs, from_idx, to_idx, limit).len() ==> month_in_range(
                (#[trigger] report_commits(cs, from_idx, to_idx, limit)[i]).year,
                report_commits(cs, from_idx, to_idx, limit)[i].month,
                from_idx,
                to_idx,
            ),
{
    lemma_commits_between(cs, from_idx, to_idx);
    let picked = commits_between(cs, from_idx, to_idx);
    let r = report_commits(cs, from_idx, to_idx, limit);
    assert forall|i: int| 0 <= i < r.len() implies month_in_range(
        (#[trigger] r[i]).year,
        r[i].month,
        from_idx,
        to_idx,
    ) by {
        assert(r[i] == picked[i]);
    }
}

} // verus!

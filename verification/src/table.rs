//! The summary and the table of the report: counts over all commits, and
//! one row per commit, group after group, whose middle cell is a one-line
//! summary of the commit's detailed entry.
use vstd::prelude::*;
use crate::groups::{
    GroupsView, ItemView, ReportGroups, ReportItem, entries_in, item_views, group_counts, advice_of,
};
use crate::report::{advice_counts, count_advice};
use crate::render::{
    entry_mentioning, text_views, find_entry, summary_cell_of, summary_cell, table_row_of,
    table_row, summary_text, summary_section,
};
use crate::text::{bars_to_spaces, replace_bars};
use crate::reply::opt_text;
use vstd::string::StringExecFns;

verus! {

/// A row of the table before its summary is known: the category, the short
/// hash and the merge advice of a commit, and the text to summarize (its
/// detailed entry with `|` replaced by spaces), if an entry of its category
/// mentions it.
pub struct SummaryJob {
    pub category: String,
    pub short_hash: String,
    pub advice: String,
    pub detail: Option<String>,
}

/// The mathematical value of a summary job.
pub struct JobView {
    pub category: Seq<char>,
    pub short_hash: Seq<char>,
    pub advice: Seq<char>,
    pub detail: Option<Seq<char>>,
}

impl View for SummaryJob {
    type V = JobView;

    open spec fn view(&self) -> JobView {
        JobView {
            category: self.category@,
            short_hash: self.short_hash@,
            advice: self.advice@,
            detail: opt_text(self.detail),
        }
    }
}

/// The views of summary jobs.
pub open spec fn job_views(v: Seq<SummaryJob>) -> Seq<JobView> {
    v.map_values(|j: SummaryJob| j@)
}

/// The text to summarize for the short hash `hash` among the entries of its
/// category: the first entry that mentions it, with `|` replaced by spaces.
pub open spec fn detail_for(entries: Seq<Seq<char>>, hash: Seq<char>) -> Option<Seq<char>> {
    match entry_mentioning(entries, hash) {
        Some(i) => Some(bars_to_spaces(entries[i])),
        None => None,
    }
}

/// The job of the commit `x` in the group of category `c` whose commits are
/// `items`.
pub open spec fn job_of(c: Seq<char>, items: Seq<ItemView>, x: ItemView) -> JobView {
    JobView {
        category: c,
        short_hash: x.short_hash,
        advice: x.advice,
        detail: detail_for(entries_in(items), x.short_hash),
    }
}

/// The jobs of the commits of one group, in order.
pub open spec fn group_jobs(c: Seq<char>, items: Seq<ItemView>) -> Seq<JobView> {
    items.map_values(|x: ItemView| job_of(c, items, x))
}

/// The jobs of all commits, group after group.
pub open spec fn jobs_of(gs: GroupsView) -> Seq<JobView>
    decreases gs.len(),
{
    if gs.len() == 0 {
        seq![]
    } else {
        jobs_of(gs.drop_last()) + group_jobs(gs.last().0, gs.last().1)
    }
}

/// The detailed entries of a group's commits.
fn group_entries(items: &Vec<ReportItem>) -> (r: Vec<String>)
    ensures
        text_views(r@) == entries_in(item_views(items@)),
{
    let ghost iv = item_views(items@);
    let mut r: Vec<String> = Vec::new();
    let mut j: usize = 0;
    assert(text_views(r@) =~= entries_in(iv.take(0)));
    while j < items.len()
        invariant
            j <= items.len(),
            iv == item_views(items@),
            text_views(r@) == entries_in(iv.take(j as int)),
        decreases items.len() - j,
    {
        let ghost prev = r@;
        r.push(items[j].entry.clone());
        proof {
            assert(iv[j as int] == items@[j as int]@);
            assert(iv.take(j + 1) =~= iv.take(j as int).push(iv[j as int]));
            assert(text_views(r@) =~= text_views(prev).push(items@[j as int].entry@));
            assert(entries_in(iv.take(j + 1)) =~= entries_in(iv.take(j as int)).push(
                iv[j as int].entry,
            ));
        }
        j += 1;
    }
    assert(iv.take(j as int) =~= iv);
    r
}

/// The text to summarize for `hash` among `entries`.
fn detail_in(entries: &Vec<String>, hash: &str) -> (r: Option<String>)
    ensures
        opt_text(r) == detail_for(text_views(entries@), hash@),
{
    match find_entry(entries, hash) {
        Some(i) => {
            assert(text_views(entries@)[i as int] == entries@[i as int]@);
            Some(replace_bars(entries[i].as_str()))
        },
        None => None,
    }
}

impl ReportGroups {
    /// The rows of the report's table before their summaries are known, one
    /// per commit, group after group.
    pub fn summary_jobs(&self) -> (r: Vec<SummaryJob>)
        ensures
            job_views(r@) == jobs_of(self@),
    {
        let groups = self.groups();
        let ghost gv = self@;
        let mut r: Vec<SummaryJob> = Vec::new();
        let mut k: usize = 0;
        assert(gv.take(0) =~= Seq::<(Seq<char>, Seq<ItemView>)>::empty());
        assert(job_views(r@) =~= Seq::<JobView>::empty());
        while k < groups.len()
            invariant
                k <= groups.len(),
                gv == self@,
                gv == groups@.map_values(|g: (String, Vec<ReportItem>)| (g.0@, item_views(g.1@))),
                job_views(r@) == jobs_of(gv.take(k as int)),
            decreases groups.len() - k,
        {
            let name = &groups[k].0;
            let items = &groups[k].1;
            let ghost g = gv[k as int];
            let entries = group_entries(items);
            let ghost before = job_views(r@);
            let mut j: usize = 0;
            assert(job_views(r@) =~= before + group_jobs(g.0, g.1).take(0));
            while j < items.len()
                invariant
                    j <= items.len(),
                    g == (name@, item_views(items@)),
                    text_views(entries@) == entries_in(g.1),
                    job_views(r@) == before + group_jobs(g.0, g.1).take(j as int),
                decreases items.len() - j,
            {
                let ghost prev = r@;
                let job = SummaryJob {
                    category: name.clone(),
                    short_hash: items[j].short_hash.clone(),
                    advice: items[j].advice.clone(),
                    detail: detail_in(&entries, items[j].short_hash.as_str()),
                };
                r.push(job);
                proof {
                    assert(g.1[j as int] == items@[j as int]@);
                    assert(job@ == job_of(g.0, g.1, g.1[j as int]));
                    assert(group_jobs(g.0, g.1).take(j + 1) =~= group_jobs(g.0, g.1).take(
                        j as int,
                    ).push(job@));
                    assert(job_views(r@) =~= job_views(prev).push(job@));
                }
                j += 1;
            }
            proof {
                assert(group_jobs(g.0, g.1).take(j as int) =~= group_jobs(g.0, g.1));
                assert(gv.take(k + 1).drop_last() =~= gv.take(k as int));
                assert(gv.take(k + 1).last() == g);
            }
            k += 1;
        }
        assert(gv.take(k as int) =~= gv);
        r
    }
}

/// The row of a job once its summary is known: a commit without a text to
/// summarize gets `无有效总结。`; otherwise the cell follows the model's
/// reply (`None` when the model could not be reached).
pub open spec fn job_row_of(job: JobView, reply: Option<Seq<char>>) -> Seq<char> {
    let cell = match job.detail {
        None => "无有效总结。"@,
        Some(_) => summary_cell_of(reply),
    };
    table_row_of(job.category, job.short_hash, cell, job.advice)
}

/// The table row of `job`, given the model's reply to its text (ignored
/// when it has none).
pub fn job_row(job: &SummaryJob, reply: Option<&str>) -> (r: String)
    ensures
        r@ == job_row_of(
            job@,
            match reply {
                Some(s) => Some(s@),
                None => None,
            },
        ),
{
    let cell = match &job.detail {
        None => String::from_str("无有效总结。"),
        Some(_) => summary_cell(reply),
    };
    table_row(job.category.as_str(), job.short_hash.as_str(), cell.as_str(), job.advice.as_str())
}

impl ReportGroups {
    /// The report's title and summary section for `repo` over the months
    /// labelled `from` and `to`, with `total` commits analysed: the commits
    /// per category and the counts of merge advice are those of the groups.
    pub fn summary(&self, repo: &str, from: &str, to: &str, total: usize) -> (r: String)
        ensures
            r@ == summary_text(
                repo@,
                from@,
                to@,
                total,
                group_counts(self@),
                advice_counts(advice_of(self@)).0 as usize,
                advice_counts(advice_of(self@)).1 as usize,
            ),
    {
        let counts = self.category_counts();
        let pairs = self.advice_pairs();
        let (suggest, instant) = count_advice(&pairs);
        summary_section(repo, from, to, total, &counts, suggest, instant)
    }
}

/// The table has one row per commit, and the category and advice of each
/// row are those that the summary counts, in the same order.
pub proof fn lemma_rows_match_advice(gs: GroupsView)
    ensures
        jobs_of(gs).len() == advice_of(gs).len(),
        forall|i: int|
            0 <= i < jobs_of(gs).len() ==> (#[trigger] jobs_of(gs)[i]).category == advice_of(gs)[i].0
                && jobs_of(gs)[i].advice == advice_of(gs)[i].1,
    decreases gs.len(),
{
    if gs.len() > 0 {
        let front = gs.drop_last();
        let g = gs.last();
        lemma_rows_match_advice(front);
        let a = advice_of(front);
        let b = g.1.map_values(|x: ItemView| (g.0, x.advice));
        let ja = jobs_of(front);
        let jb = group_jobs(g.0, g.1);
        assert(jobs_of(gs) == ja + jb);
        assert(advice_of(gs) == a + b);
        assert forall|i: int| 0 <= i < jobs_of(gs).len() implies (#[trigger] jobs_of(gs)[i]).category
            == advice_of(gs)[i].0 && jobs_of(gs)[i].advice == advice_of(gs)[i].1 by {
            if i < ja.len() {
                assert(jobs_of(gs)[i] == ja[i]);
                assert(advice_of(gs)[i] == a[i]);
            } else {
                let k = i - ja.len();
                assert(jobs_of(gs)[i] == jb[k]);
                assert(advice_of(gs)[i] == b[k]);
            }
        }
    }
}

} // verus!

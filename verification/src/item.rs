//! One commit of the report: the text the analysis is asked about, and what
//! the report keeps of the commit once its analysis has come back (or has
//! failed).
use vstd::prelude::*;
use crate::analysis::{
    no_code_change, summary_and_impact, merge_advice, is_no_code_change, summary_and_impact_of,
    merge_advice_of,
};
use crate::category::{commit_category, categorize, is_category, lemma_commit_category_is_category};
use crate::commits::{CommitRecord, CommitView};
use crate::groups::{ReportItem, ItemView};
use crate::render::{short_hash, section_order};
use crate::report::{detail_entry, detail_entry_of};
use crate::text::take_chars;
use vstd::string::StringExecFns;

verus! {

/// The title of a commit's detailed entry: short and long hash, commit time
/// and subject.
pub open spec fn entry_title_of(c: CommitView) -> Seq<char> {
    "**Commit `"@ + take_chars(c.hash, 8) + "`**  \n**长哈希："@ + c.hash + "**  \n**提交时间："@
        + c.shown_time + "**  \n**提交标题："@ + c.subject + "**  \n\n"@
}

/// The title of the detailed entry of `c`.
pub fn entry_title(c: &CommitRecord) -> (r: String)
    ensures
        r@ == entry_title_of(c@),
{
    let mut r = String::from_str("**Commit `");
    let short = short_hash(c.hash.as_str());
    r.append(short.as_str());
    r.append("`**  \n**长哈希：");
    r.append(c.hash.as_str());
    r.append("**  \n**提交时间：");
    r.append(c.shown_time.as_str());
    r.append("**  \n**提交标题：");
    r.append(c.subject.as_str());
    r.append("**  \n\n");
    r
}

/// What the analysis of a commit is asked about: its subject and commit
/// date, then its diff.
pub open spec fn analysis_input_of(c: CommitView, diff: Seq<char>) -> Seq<char> {
    "Commit subject: "@ + c.subject + "\nCommit date: "@ + c.stamp + "\n\n"@ + diff
}

/// The text that the analysis of `c`, whose diff is `diff`, is asked about.
pub fn analysis_input(c: &CommitRecord, diff: &str) -> (r: String)
    ensures
        r@ == analysis_input_of(c@, diff@),
{
    let mut r = String::from_str("Commit subject: ");
    r.append(c.subject.as_str());
    r.append("\nCommit date: ");
    r.append(c.stamp.as_str());
    r.append("\n\n");
    r.append(diff);
    r
}

/// The category and the report item of a commit whose analysis came back:
/// the category the analysis gives, the summary and impact lines, the merge
/// advice, and the detailed entry.
pub open spec fn analysed(c: CommitView, diff: Seq<char>, analysis: Seq<char>) -> (
    Seq<char>,
    ItemView,
) {
    let no_change = no_code_change(diff);
    let category = commit_category(analysis);
    let (summary, impact) = summary_and_impact(analysis, no_change);
    let advice = merge_advice(category, c.subject, no_change, analysis);
    (
        category,
        ItemView {
            short_hash: take_chars(c.hash, 8),
            summary,
            impact,
            advice,
            entry: detail_entry(entry_title_of(c), analysis, advice),
        },
    )
}

/// The category under which a commit whose analysis failed is filed.
pub open spec fn failure_category() -> Seq<char> {
    "分析失败"@
}

/// The report item of a commit whose analysis failed for `reason`: it is
/// to be looked at by hand (`人工复核`), and its entry gives the reason.
pub open spec fn failed(c: CommitView, reason: Seq<char>) -> ItemView {
    ItemView {
        short_hash: take_chars(c.hash, 8),
        summary: "分析失败"@,
        impact: seq![],
        advice: "人工复核"@,
        entry: entry_title_of(c) + "**分析失败："@ + reason + "**\n\n---\n\n"@,
    }
}

/// Files the commit `c`, with diff `diff`, under the category its analysis
/// gives, and makes its report item.
pub fn analysed_item(c: &CommitRecord, diff: &str, analysis: &str) -> (r: (&'static str, ReportItem))
    ensures
        (r.0@, r.1@) == analysed(c@, diff@, analysis@),
{
    let no_change = is_no_code_change(diff);
    let category = categorize(analysis);
    let (summary, impact) = summary_and_impact_of(analysis, no_change);
    let advice = merge_advice_of(category, c.subject.as_str(), no_change, analysis);
    let title = entry_title(c);
    let entry = detail_entry_of(title.as_str(), analysis, advice.as_str());
    let item = ReportItem {
        short_hash: short_hash(c.hash.as_str()),
        summary,
        impact,
        advice,
        entry,
    };
    (category, item)
}

/// Files the commit `c`, whose analysis failed for `reason`, under the
/// failure category, and makes its report item.
pub fn failed_item(c: &CommitRecord, reason: &str) -> (r: (&'static str, ReportItem))
    ensures
        r.0@ == failure_category(),
        r.1@ == failed(c@, reason@),
{
    let mut entry = entry_title(c);
    entry.append("**分析失败：");
    entry.append(reason);
    entry.append("**\n\n---\n\n");
    let item = ReportItem {
        short_hash: short_hash(c.hash.as_str()),
        summary: String::from_str("分析失败"),
        impact: String::new(),
        advice: String::from_str("人工复核"),
        entry,
    };
    ("分析失败", item)
}

/// Every commit is filed under a category that the report has a section
/// for, whether its analysis came back or failed, so that every detailed
/// entry is printed.
pub proof fn lemma_every_category_has_a_section(analysis: Seq<char>)
    ensures
        section_order().contains(commit_category(analysis)),
        section_order().contains(failure_category()),
{
    lemma_commit_category_is_category(analysis);
    let c = commit_category(analysis);
    let o = section_order();
    assert(is_category(c));
    if c == "bug修复"@ {
        assert(o[0] == c);
    } else if c == "功能增强"@ {
        assert(o[1] == c);
    } else if c == "性能优化"@ {
        assert(o[2] == c);
    } else if c == "安全修复"@ {
        assert(o[3] == c);
    } else if c == "构建/CI"@ {
        assert(o[4] == c);
    } else if c == "配置变更"@ {
        assert(o[5] == c);
    } else if c == "兼容性"@ {
        assert(o[6] == c);
    } else if c == "文档变更"@ {
        assert(o[7] == c);
    } else if c == "重构"@ {
        assert(o[8] == c);
    } else if c == "测试"@ {
        assert(o[9] == c);
    } else {
        assert(o[10] == c);
    }
    assert(o[11] == failure_category());
}

} // verus!

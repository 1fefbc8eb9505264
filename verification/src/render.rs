//! The text of the report file: its name, its summary, its table of
//! commits, and its sections of detailed entries in a fixed order.
use vstd::prelude::*;
use crate::decimal::{decimal_digits, decimal_string};
use crate::text::{
    trim_end, contains_seq, bars_to_spaces, chars_of, same_chars, matches_at, trim_end_at, sub_vec,
    string_from_chars, replace_bars, occurs_at,
};
use vstd::string::StringExecFns;

verus! {

/// The name of the report file: the repository and the first month, and the
/// last month when it differs.
pub open spec fn report_file_name_of(repo: Seq<char>, from: Seq<char>, to: Seq<char>) -> Seq<char> {
    if from == to {
        repo + "-"@ + from + ".md"@
    } else {
        repo + "-"@ + from + "-"@ + to + ".md"@
    }
}

/// The name of the report file for `repo` over the months labelled `from`
/// and `to`.
pub fn report_file_name(repo: &str, from: &str, to: &str) -> (r: String)
    ensures
        r@ == report_file_name_of(repo@, from@, to@),
{
    let same = same_chars(&chars_of(from), &chars_of(to));
    let mut r = String::from_str(repo);
    r.append("-");
    r.append(from);
    if !same {
        r.append("-");
        r.append(to);
    }
    r.append(".md");
    r
}

/// The lines `- category：count 个` of the summary, one per category.
pub open spec fn counts_text(counts: Seq<(Seq<char>, usize)>) -> Seq<char>
    decreases counts.len(),
{
    if counts.len() == 0 {
        seq![]
    } else {
        counts_text(counts.drop_last()) + "- "@ + counts.last().0 + "："@ + decimal_digits(
            counts.last().1 as nat,
        ) + " 个\n"@
    }
}

/// The views of `(category, count)` pairs.
pub open spec fn count_views(counts: Seq<(String, usize)>) -> Seq<(Seq<char>, usize)> {
    counts.map_values(|p: (String, usize)| (p.0@, p.1))
}

/// The report's title and summary section: which months of which
/// repository it covers, how many commits, how many per category, and how
/// many are advised for merging and for immediate merging.
pub open spec fn summary_text(
    repo: Seq<char>,
    from: Seq<char>,
    to: Seq<char>,
    total: usize,
    counts: Seq<(Seq<char>, usize)>,
    suggest: usize,
    instant: usize,
) -> Seq<char> {
    "# "@ + repo + " 提交分析报告\n\n"@ + "## 总结\n\n"@ + (if from == to {
        "本报告扫描了 "@ + repo + " 包 "@ + from + " 月份的提交，共计 "@ + decimal_digits(
            total as nat,
        ) + " 个。\n"@
    } else {
        "本报告扫描了 "@ + repo + " 包 "@ + from + " 至 "@ + to + " 的提交，共计 "@
            + decimal_digits(total as nat) + " 个。\n"@
    }) + "\n各类型提交统计：\n"@ + counts_text(counts) + "\n建议合入："@ + decimal_digits(
        suggest as nat,
    ) + " 个\n立刻合入："@ + decimal_digits(instant as nat) + " 个\n\n"@ + "---\n\n"@
}

/// The report's title and summary section.
pub fn summary_section(
    repo: &str,
    from: &str,
    to: &str,
    total: usize,
    counts: &Vec<(String, usize)>,
    suggest: usize,
    instant: usize,
) -> (r: String)
    ensures
        r@ == summary_text(repo@, from@, to@, total, count_views(counts@), suggest, instant),
{
    let mut r = String::from_str("# ");
    r.append(repo);
    r.append(" 提交分析报告\n\n");
    r.append("## 总结\n\n");
    let same = same_chars(&chars_of(from), &chars_of(to));
    let ghost head = r@;
    r.append("本报告扫描了 ");
    r.append(repo);
    r.append(" 包 ");
    r.append(from);
    if same {
        r.append(" 月份的提交，共计 ");
    } else {
        r.append(" 至 ");
        r.append(to);
        r.append(" 的提交，共计 ");
    }
    let total_text = decimal_string(total as u64);
    r.append(total_text.as_str());
    r.append(" 个。\n");
    let ghost after_period = r@;
    r.append("\n各类型提交统计：\n");
    let ghost before_counts = r@;
    let ghost cv = count_views(counts@);
    let mut k: usize = 0;
    assert(cv.take(0) =~= Seq::<(Seq<char>, usize)>::empty());
    assert(r@ =~= before_counts + counts_text(cv.take(0)));
    while k < counts.len()
        invariant
            k <= counts.len(),
            cv == count_views(counts@),
            r@ == before_counts + counts_text(cv.take(k as int)),
        decreases counts.len() - k,
    {
        let ghost prev = r@;
        r.append("- ");
        r.append(counts[k].0.as_str());
        r.append("：");
        let n_text = decimal_string(counts[k].1 as u64);
        r.append(n_text.as_str());
        r.append(" 个\n");
        proof {
            assert(cv.take(k + 1).drop_last() =~= cv.take(k as int));
            assert(cv.take(k + 1).last() == (counts@[k as int].0@, counts@[k as int].1));
            assert(r@ =~= before_counts + counts_text(cv.take(k + 1)));
        }
        k += 1;
    }
    assert(cv.take(k as int) =~= cv);
    r.append("\n建议合入：");
    let s_text = decimal_string(suggest as u64);
    r.append(s_text.as_str());
    r.append(" 个\n立刻合入：");
    let i_text = decimal_string(instant as u64);
    r.append(i_text.as_str());
    r.append(" 个\n\n");
    r.append("---\n\n");
    proof {
        let period = if from@ == to@ {
            "本报告扫描了 "@ + repo@ + " 包 "@ + from@ + " 月份的提交，共计 "@ + decimal_digits(
                total as nat,
            ) + " 个。\n"@
        } else {
            "本报告扫描了 "@ + repo@ + " 包 "@ + from@ + " 至 "@ + to@ + " 的提交，共计 "@
                + decimal_digits(total as nat) + " 个。\n"@
        };
        assert(after_period =~= head + period);
        assert(r@ =~= summary_text(repo@, from@, to@, total, cv, suggest, instant));
    }
    r
}

/// The table cell of a commit's one-line summary: a fixed text when the
/// model could not be reached (`None`) or gave nothing, and the summary with
/// `|` replaced by spaces otherwise.
pub open spec fn summary_cell_of(reply: Option<Seq<char>>) -> Seq<char> {
    match reply {
        None => "LLM总结失败。"@,
        Some(s) => if s.len() == 0 {
            "无有效总结。"@
        } else {
            bars_to_spaces(s)
        },
    }
}

/// The table cell of a commit's one-line summary.
pub fn summary_cell(reply: Option<&str>) -> (r: String)
    ensures
        r@ == summary_cell_of(
            match reply {
                Some(s) => Some(s@),
                None => None,
            },
        ),
{
    match reply {
        None => String::from_str("LLM总结失败。"),
        Some(s) => {
            let v = chars_of(s);
            if v.len() == 0 {
                String::from_str("无有效总结。")
            } else {
                replace_bars(s)
            }
        },
    }
}

/// A row of the table: category, short hash, summary cell, advice.
pub open spec fn table_row_of(
    category: Seq<char>,
    hash: Seq<char>,
    cell: Seq<char>,
    advice: Seq<char>,
) -> Seq<char> {
    "| "@ + category + " | "@ + hash + " | "@ + cell + " | "@ + advice + " |\n"@
}

/// A row of the report's table.
pub fn table_row(category: &str, hash: &str, cell: &str, advice: &str) -> (r: String)
    ensures
        r@ == table_row_of(category@, hash@, cell@, advice@),
{
    let mut r = String::from_str("| ");
    r.append(category);
    r.append(" | ");
    r.append(hash);
    r.append(" | ");
    r.append(cell);
    r.append(" | ");
    r.append(advice);
    r.append(" |\n");
    r
}

/// The short hash of a commit: its first 8 characters.
pub fn short_hash(hash: &str) -> (r: String)
    ensures
        r@ == crate::text::take_chars(hash@, 8),
{
    let v = chars_of(hash);
    if v.len() <= 8 {
        string_from_chars(&v)
    } else {
        string_from_chars(&sub_vec(&v, 0, 8))
    }
}

/// The position of the first detailed entry that mentions `hash`.
pub open spec fn entry_mentioning(entries: Seq<Seq<char>>, hash: Seq<char>) -> Option<int> {
    if exists|i: int| 0 <= i < entries.len() && contains_seq(#[trigger] entries[i], hash) {
        Some(
            choose|i: int|
                0 <= i < entries.len() && contains_seq(#[trigger] entries[i], hash) && forall|j: int|
                    0 <= j < i ==> !contains_seq(#[trigger] entries[j], hash),
        )
    } else {
        None
    }
}

/// The views of a list of strings.
pub open spec fn text_views(v: Seq<String>) -> Seq<Seq<char>> {
    v.map_values(|s: String| s@)
}

/// The first detailed entry that mentions `hash`, whose text the model
/// summarizes for the table.
pub fn find_entry(entries: &Vec<String>, hash: &str) -> (r: Option<usize>)
    ensures
        r matches Some(i) ==> i < entries.len() && entry_mentioning(text_views(entries@), hash@)
            == Some(i as int),
        r is None ==> entry_mentioning(text_views(entries@), hash@) is None,
{
    let ghost es = text_views(entries@);
    let h = chars_of(hash);
    let mut k: usize = 0;
    while k < entries.len()
        invariant
            k <= entries.len(),
            es == text_views(entries@),
            h@ == hash@,
            forall|j: int| 0 <= j < k ==> !contains_seq(#[trigger] es[j], hash@),
        decreases entries.len() - k,
    {
        let e = chars_of(entries[k].as_str());
        assert(es[k as int] == e@);
        if crate::text::contains(&e, &h) {
            proof {
                let w = choose|i: int|
                    0 <= i < es.len() && contains_seq(#[trigger] es[i], hash@) && forall|j: int|
                        0 <= j < i ==> !contains_seq(#[trigger] es[j], hash@);
                assert(0 <= k < es.len() && contains_seq(es[k as int], hash@) && forall|j: int|
                    0 <= j < k ==> !contains_seq(#[trigger] es[j], hash@));
                if w < k {
                    assert(!contains_seq(es[w], hash@));
                } else if w > k {
                    assert(!contains_seq(es[k as int], hash@));
                }
            }
            return Some(k);
        }
        k += 1;
    }
    None
}

/// The sections of detailed entries, in the order the report lists them.
pub open spec fn section_order() -> Seq<Seq<char>> {
    seq![
        "bug修复"@,
        "功能增强"@,
        "性能优化"@,
        "安全修复"@,
        "构建/CI"@,
        "配置变更"@,
        "兼容性"@,
        "文档变更"@,
        "重构"@,
        "测试"@,
        "其他"@,
        "分析失败"@,
    ]
}

/// The names of the sections of detailed entries, in order.
pub fn section_names() -> (r: Vec<&'static str>)
    ensures
        r@.map_values(|s: &str| s@) == section_order(),
{
    let r = vec![
        "bug修复",
        "功能增强",
        "性能优化",
        "安全修复",
        "构建/CI",
        "配置变更",
        "兼容性",
        "文档变更",
        "重构",
        "测试",
        "其他",
        "分析失败",
    ];
    assert(r@.map_values(|s: &str| s@) =~= section_order());
    r
}

/// `s` ends with `p` (`str::ends_with`).
pub open spec fn ends(s: Seq<char>, p: Seq<char>) -> bool {
    p.len() <= s.len() && s.subrange(s.len() - p.len(), s.len() as int) == p
}

/// A detailed entry as the report prints it: without trailing whitespace,
/// then closed by a rule unless it already ends with one.
pub open spec fn printed_entry(e: Seq<char>) -> Seq<char> {
    let t = trim_end(e);
    t + if ends(t, "---"@) {
        "\n\n"@
    } else {
        "\n---\n\n"@
    }
}

/// The printed entries of a section, in order.
pub open spec fn printed_entries(es: Seq<Seq<char>>) -> Seq<char>
    decreases es.len(),
{
    if es.len() == 0 {
        seq![]
    } else {
        printed_entries(es.drop_last()) + printed_entry(es.last())
    }
}

/// The entries of the first group named `name`, if there is one.
pub open spec fn entries_named(groups: Seq<(Seq<char>, Seq<Seq<char>>)>, name: Seq<char>) -> Option<
    Seq<Seq<char>>,
>
    decreases groups.len(),
{
    if groups.len() == 0 {
        None
    } else if groups[0].0 == name {
        Some(groups[0].1)
    } else {
        entries_named(groups.drop_first(), name)
    }
}

/// A section of the report: its heading, then its entries, or a note that
/// the category has no commits.
pub open spec fn section_text(groups: Seq<(Seq<char>, Seq<Seq<char>>)>, name: Seq<char>) -> Seq<
    char,
> {
    "## "@ + name + "\n\n"@ + match entries_named(groups, name) {
        Some(es) => printed_entries(es),
        None => "（本分类本月无相关提交）\n\n"@,
    }
}

/// The sections named in `names`, in order.
pub open spec fn sections_text(groups: Seq<(Seq<char>, Seq<Seq<char>>)>, names: Seq<Seq<char>>) -> Seq<
    char,
>
    decreases names.len(),
{
    if names.len() == 0 {
        seq![]
    } else {
        sections_text(groups, names.drop_last()) + section_text(groups, names.last())
    }
}

/// The views of groups of detailed entries, by category.
pub open spec fn group_views(groups: Seq<(String, Vec<String>)>) -> Seq<
    (Seq<char>, Seq<Seq<char>>),
> {
    groups.map_values(|g: (String, Vec<String>)| (g.0@, text_views(g.1@)))
}

/// A detailed entry as the report prints it.
fn print_entry(e: &str) -> (r: String)
    ensures
        r@ == printed_entry(e@),
{
    let v = chars_of(e);
    let b = trim_end_at(&v, 0, v.len());
    assert(v@.subrange(0, v.len() as int) =~= v@);
    let t = sub_vec(&v, 0, b);
    let rule = chars_of("---");
    let ends_with_rule = if rule.len() <= t.len() {
        matches_at(&t, &rule, t.len() - rule.len())
    } else {
        false
    };
    let mut r = string_from_chars(&t);
    if ends_with_rule {
        r.append("\n\n");
    } else {
        r.append("\n---\n\n");
    }
    r
}

/// The group named `name`, if there is one.
fn group_named(groups: &Vec<(String, Vec<String>)>, name: &str) -> (r: Option<usize>)
    ensures
        r matches Some(i) ==> i < groups.len() && entries_named(group_views(groups@), name@) == Some(
            text_views(groups@[i as int].1@),
        ),
        r is None ==> entries_named(group_views(groups@), name@) is None,
{
    let ghost gs = group_views(groups@);
    let n = chars_of(name);
    let mut k: usize = 0;
    assert(gs.skip(0) =~= gs);
    while k < groups.len()
        invariant
            k <= groups.len(),
            gs == group_views(groups@),
            n@ == name@,
            entries_named(gs, name@) == entries_named(gs.skip(k as int), name@),
        decreases groups.len() - k,
    {
        let g = chars_of(groups[k].0.as_str());
        assert(gs.skip(k as int)[0] == gs[k as int]);
        if same_chars(&g, &n) {
            return Some(k);
        }
        assert(gs.skip(k as int).drop_first() =~= gs.skip(k + 1));
        k += 1;
    }
    None
}

/// The sections of detailed entries, in the report's order of categories.
pub fn detail_sections(groups: &Vec<(String, Vec<String>)>) -> (r: String)
    ensures
        r@ == sections_text(group_views(groups@), section_order()),
{
    let names = section_names();
    let ghost gs = group_views(groups@);
    let ghost order = section_order();
    let mut r = String::new();
    let mut k: usize = 0;
    assert(order.take(0) =~= Seq::<Seq<char>>::empty());
    while k < names.len()
        invariant
            k <= names.len(),
            names@.map_values(|s: &str| s@) == order,
            order == section_order(),
            gs == group_views(groups@),
            r@ == sections_text(gs, order.take(k as int)),
        decreases names.len() - k,
    {
        let name = names[k];
        assert(order[k as int] == name@);
        let ghost prev = r@;
        r.append("## ");
        r.append(name);
        r.append("\n\n");
        match group_named(groups, name) {
            Some(i) => {
                let entries = &groups[i].1;
                let ghost es = text_views(entries@);
                let ghost before = r@;
                let mut j: usize = 0;
                assert(es.take(0) =~= Seq::<Seq<char>>::empty());
                while j < entries.len()
                    invariant
                        j <= entries.len(),
                        es == text_views(entries@),
                        r@ == before + printed_entries(es.take(j as int)),
                    decreases entries.len() - j,
                {
                    let p = print_entry(entries[j].as_str());
                    r.append(p.as_str());
                    proof {
                        assert(es.take(j + 1).drop_last() =~= es.take(j as int));
                        assert(es.take(j + 1).last() == entries@[j as int]@);
                        assert(r@ =~= before + printed_entries(es.take(j + 1)));
                    }
                    j += 1;
                }
                assert(es.take(j as int) =~= es);
            },
            None => {
                r.append("（本分类本月无相关提交）\n\n");
            },
        }
        proof {
            assert(order.take(k + 1).drop_last() =~= order.take(k as int));
            assert(order.take(k + 1).last() == name@);
            assert(r@ =~= sections_text(gs, order.take(k + 1)));
        }
        k += 1;
    }
    assert(order.take(k as int) =~= order);
    r
}

/// The table of commits: heading, header row, the rows, and a rule.
pub open spec fn table_text(rows: Seq<Seq<char>>) -> Seq<char> {
    "## 分类汇总\n\n"@ + "| 分类 | 短Hash | 一句话总结 | 建议 |\n|---|---|---|---|\n"@ + rows_text(rows)
        + "\n---\n\n"@
}

/// The rows, one after the other.
pub open spec fn rows_text(rows: Seq<Seq<char>>) -> Seq<char>
    decreases rows.len(),
{
    if rows.len() == 0 {
        seq![]
    } else {
        rows_text(rows.drop_last()) + rows.last()
    }
}

/// The whole report: summary, table, sections, and a closing line.
pub open spec fn report_text_of(
    summary: Seq<char>,
    rows: Seq<Seq<char>>,
    sections: Seq<char>,
) -> Seq<char> {
    summary + table_text(rows) + sections + "> 由 lensup 自动生成\n"@
}

/// Puts the report together from its summary section, the rows of its
/// table and its sections of detailed entries.
pub fn report_text(summary: &str, rows: &Vec<String>, sections: &str) -> (r: String)
    ensures
        r@ == report_text_of(summary@, text_views(rows@), sections@),
{
    let ghost rs = text_views(rows@);
    let mut r = String::from_str(summary);
    r.append("## 分类汇总\n\n");
    r.append("| 分类 | 短Hash | 一句话总结 | 建议 |\n|---|---|---|---|\n");
    let ghost before = r@;
    let mut k: usize = 0;
    assert(rs.take(0) =~= Seq::<Seq<char>>::empty());
    while k < rows.len()
        invariant
            k <= rows.len(),
            rs == text_views(rows@),
            r@ == before + rows_text(rs.take(k as int)),
        decreases rows.len() - k,
    {
        r.append(rows[k].as_str());
        proof {
            assert(rs.take(k + 1).drop_last() =~= rs.take(k as int));
            assert(rs.take(k + 1).last() == rows@[k as int]@);
            assert(r@ =~= before + rows_text(rs.take(k + 1)));
        }
        k += 1;
    }
    assert(rs.take(k as int) =~= rs);
    r.append("\n---\n\n");
    r.append(sections);
    r.append("> 由 lensup 自动生成\n");
    proof {
        assert(r@ =~= report_text_of(summary@, rs, sections@));
    }
    r
}

} // verus!

use lensup::groups::{ReportGroups, ReportItem};
use lensup::render::{
    detail_sections, find_entry, report_file_name, report_text, section_names, short_hash,
    summary_cell, summary_section, table_row,
};
use lensup::report::{count_advice, detail_entry_of};
use lensup::table::job_row;

fn item(hash: &str, advice: &str, entry: &str) -> ReportItem {
    ReportItem {
        short_hash: hash.to_string(),
        summary: format!("summary of {}", hash),
        impact: String::new(),
        advice: advice.to_string(),
        entry: entry.to_string(),
    }
}

fn sample_groups() -> ReportGroups {
    let mut g = ReportGroups::new();
    g.add("功能增强", item("aaaa1111", "建议合入", "**Commit `aaaa1111`** a|b\n"));
    g.add("bug修复", item("bbbb2222", "立刻合入", "**Commit `bbbb2222`**\n---\n\n"));
    g.add("安全修复", item("cccc3333", "建议合入", "no hash here\n"));
    g.add("功能增强", item("dddd4444", "人工复核", "**Commit `dddd4444`**\n"));
    g
}

#[test]
fn groups_are_ordered_by_category_name() {
    let g = sample_groups();
    let names: Vec<&str> = g.groups().iter().map(|(n, _)| n.as_str()).collect();
    // The order of strings, as a BTreeMap keeps its keys.
    assert_eq!(names, vec!["bug修复", "功能增强", "安全修复"]);
    g.check_sorted();
}

#[test]
fn adding_appends_to_the_category_only() {
    let mut g = sample_groups();
    g.add("功能增强", item("eeee5555", "不影响", "e\n"));
    let hashes: Vec<Vec<&str>> = g
        .groups()
        .iter()
        .map(|(_, items)| items.iter().map(|i| i.short_hash.as_str()).collect())
        .collect();
    assert_eq!(
        hashes,
        vec![vec!["bbbb2222"], vec!["aaaa1111", "dddd4444", "eeee5555"], vec!["cccc3333"]]
    );
}

#[test]
fn category_counts_and_advice_pairs() {
    let g = sample_groups();
    let counts = g.category_counts();
    assert_eq!(
        counts,
        vec![
            ("bug修复".to_string(), 1),
            ("功能增强".to_string(), 2),
            ("安全修复".to_string(), 1)
        ]
    );
    let pairs = g.advice_pairs();
    let pairs: Vec<(&str, &str)> = pairs.iter().map(|(c, a)| (c.as_str(), a.as_str())).collect();
    assert_eq!(
        pairs,
        vec![
            ("bug修复", "立刻合入"),
            ("功能增强", "建议合入"),
            ("功能增强", "人工复核"),
            ("安全修复", "建议合入")
        ]
    );
    let entries = g.entry_groups();
    assert_eq!(entries.len(), 3);
    assert_eq!(entries[1].1, vec!["**Commit `aaaa1111`** a|b\n", "**Commit `dddd4444`**\n"]);
}

#[test]
fn count_advice_counts_security_fixes_as_instant() {
    let pairs = vec![
        ("安全修复".to_string(), "建议合入".to_string()),
        ("bug修复".to_string(), "立刻合入".to_string()),
        ("功能增强".to_string(), "建议合入".to_string()),
        ("其他".to_string(), "人工复核".to_string()),
    ];
    assert_eq!(count_advice(&pairs), (2, 2));
    assert_eq!(count_advice(&Vec::new()), (0, 0));
}

#[test]
fn summary_of_one_month() {
    let g = sample_groups();
    assert_eq!(
        g.summary("repo", "2026-03", "2026-03", 4),
        "# repo 提交分析报告\n\n## 总结\n\n本报告扫描了 repo 包 2026-03 月份的提交，共计 4 个。\n\n各类型提交统计：\n- bug修复：1 个\n- 功能增强：2 个\n- 安全修复：1 个\n\n建议合入：2 个\n立刻合入：2 个\n\n---\n\n"
    );
}

#[test]
fn summary_section_of_several_months() {
    let counts = vec![("其他".to_string(), 12)];
    assert_eq!(
        summary_section("r", "2025-12", "2026-01", 12, &counts, 0, 0),
        "# r 提交分析报告\n\n## 总结\n\n本报告扫描了 r 包 2025-12 至 2026-01 的提交，共计 12 个。\n\n各类型提交统计：\n- 其他：12 个\n\n建议合入：0 个\n立刻合入：0 个\n\n---\n\n"
    );
}

#[test]
fn summary_jobs_find_the_entry_of_each_commit() {
    let g = sample_groups();
    let jobs = g.summary_jobs();
    assert_eq!(jobs.len(), 4);
    assert_eq!(jobs[0].category, "bug修复");
    assert_eq!(jobs[0].short_hash, "bbbb2222");
    assert_eq!(jobs[0].detail.as_deref(), Some("**Commit `bbbb2222`**\n---\n\n"));
    // The text to summarize has its `|` replaced by spaces.
    assert_eq!(jobs[1].detail.as_deref(), Some("**Commit `aaaa1111`** a b\n"));
    assert_eq!(jobs[2].short_hash, "dddd4444");
    assert_eq!(jobs[2].advice, "人工复核");
    assert_eq!(jobs[3].category, "安全修复");
    assert_eq!(jobs[3].detail, None);
}

#[test]
fn job_rows_follow_the_reply() {
    let g = sample_groups();
    let jobs = g.summary_jobs();
    assert_eq!(job_row(&jobs[0], Some("修复|崩溃。")), "| bug修复 | bbbb2222 | 修复 崩溃。 | 立刻合入 |\n");
    assert_eq!(job_row(&jobs[0], Some("")), "| bug修复 | bbbb2222 | 无有效总结。 | 立刻合入 |\n");
    assert_eq!(job_row(&jobs[0], None), "| bug修复 | bbbb2222 | LLM总结失败。 | 立刻合入 |\n");
    // Without a text to summarize, the reply is not used.
    assert_eq!(job_row(&jobs[3], None), "| 安全修复 | cccc3333 | 无有效总结。 | 建议合入 |\n");
}

#[test]
fn summary_cell_and_table_row() {
    assert_eq!(summary_cell(None), "LLM总结失败。");
    assert_eq!(summary_cell(Some("")), "无有效总结。");
    assert_eq!(summary_cell(Some("a|b|c")), "a b c");
    assert_eq!(table_row("其他", "12345678", "x", "人工复核"), "| 其他 | 12345678 | x | 人工复核 |\n");
}

#[test]
fn report_file_name_names_one_or_two_months() {
    assert_eq!(report_file_name("repo", "2026-03", "2026-03"), "repo-2026-03.md");
    assert_eq!(report_file_name("repo", "2026-02", "2026-03"), "repo-2026-02-2026-03.md");
}

#[test]
fn short_hash_takes_eight_characters() {
    assert_eq!(short_hash("0123456789abcdef"), "01234567");
    assert_eq!(short_hash("abc"), "abc");
    assert_eq!(short_hash(""), "");
}

#[test]
fn find_entry_takes_the_first_mention() {
    let es = vec!["x".to_string(), "has abc".to_string(), "abc again".to_string()];
    assert_eq!(find_entry(&es, "abc"), Some(1));
    assert_eq!(find_entry(&es, "zzz"), None);
    assert_eq!(find_entry(&Vec::new(), "abc"), None);
}

#[test]
fn detail_sections_follow_the_fixed_order() {
    let names = section_names();
    assert_eq!(names.len(), 12);
    assert_eq!(names[0], "bug修复");
    assert_eq!(names[11], "分析失败");
    let groups = vec![
        ("其他".to_string(), vec!["first  \n".to_string(), "second\n---\n\n".to_string()]),
        ("bug修复".to_string(), vec!["fix\n".to_string()]),
    ];
    let mut expected = String::new();
    for n in &names {
        expected.push_str(&format!("## {}\n\n", n));
        match *n {
            "bug修复" => expected.push_str("fix\n---\n\n"),
            "其他" => expected.push_str("first\n---\n\nsecond\n---\n\n"),
            _ => expected.push_str("（本分类本月无相关提交）\n\n"),
        }
    }
    assert_eq!(detail_sections(&groups), expected);
}

#[test]
fn report_text_joins_the_parts() {
    let rows = vec!["| a | b | c | d |\n".to_string()];
    assert_eq!(
        report_text("S\n", &rows, "SEC\n"),
        "S\n## 分类汇总\n\n| 分类 | 短Hash | 一句话总结 | 建议 |\n|---|---|---|---|\n| a | b | c | d |\n\n---\n\nSEC\n> 由 lensup 自动生成\n"
    );
}

#[test]
fn detail_entry_skips_summaries_and_adds_advice() {
    let analysis = "分类\n总结\n影响\n一句话总结：不要\n## 风险\n##\n正文\n";
    assert_eq!(
        detail_entry_of("T\n", analysis, "人工复核"),
        "T\n**风险**\n正文\n回归风险与建议：人工复核\n\n---\n\n"
    );
    let analysis = "分类\n总结\n影响\n【建议】 回归测试\n";
    assert_eq!(detail_entry_of("T\n", analysis, "立刻合入"), "T\n【建议】 回归测试\n\n---\n\n");
    assert_eq!(detail_entry_of("T\n", "", "x"), "T\n回归风险与建议：x\n\n---\n\n");
}

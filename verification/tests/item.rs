use lensup::commits::parse_commit_log;
use lensup::item::{analysed_item, analysis_input, entry_title, failed_item};

fn commit() -> lensup::commits::CommitRecord {
    let mut cs = parse_commit_log("abcdef1234567890|2026-03-05T10:20:30+08:00|Fix crash\n");
    cs.remove(0)
}

const TITLE: &str = "**Commit `abcdef12`**  \n**长哈希：abcdef1234567890**  \n**提交时间：2026-03-05 10:20:30 +08:00**  \n**提交标题：Fix crash**  \n\n";

#[test]
fn entry_title_names_hashes_time_and_subject() {
    assert_eq!(entry_title(&commit()), TITLE);
}

#[test]
fn analysis_input_puts_subject_and_date_before_the_diff() {
    assert_eq!(
        analysis_input(&commit(), "diff --git a/x b/x\n+y\n"),
        "Commit subject: Fix crash\nCommit date: 2026-03-05T10:20:30+08:00\n\ndiff --git a/x b/x\n+y\n"
    );
}

#[test]
fn analysed_item_files_a_bug_fix() {
    let analysis = "bug修复\n修复空指针崩溃问题\n影响登录模块\n详细说明第一行\n建议：尽快合入\n";
    let (category, item) = analysed_item(&commit(), "diff --git a/x b/x\n+y\n", analysis);
    assert_eq!(category, "bug修复");
    assert_eq!(item.short_hash, "abcdef12");
    assert_eq!(item.summary, "修复空指针崩溃问题");
    assert_eq!(item.impact, "影响登录模块");
    assert_eq!(item.advice, "立刻合入");
    assert_eq!(item.entry, format!("{}详细说明第一行\n建议：尽快合入\n\n---\n\n", TITLE));
}

#[test]
fn analysed_item_without_code_changes() {
    let analysis = "功能增强\n\n第一行说明文字\n影响很小\n# 细节\n正文\n";
    let (category, item) = analysed_item(&commit(), "diff --git a/x b/x\nindex 1..2\n", analysis);
    assert_eq!(category, "功能增强");
    assert_eq!(item.summary, "第一行说明文字");
    assert_eq!(item.impact, "影响很小");
    // Neither a translation nor a release, and no code changed.
    assert_eq!(item.advice, "不影响");
    assert_eq!(
        item.entry,
        format!("{}影响很小\n**细节**\n正文\n回归风险与建议：不影响\n\n---\n\n", TITLE)
    );
}

#[test]
fn analysed_item_falls_back_to_keywords() {
    let analysis = "改进了 README 文档\n更新说明\n\n";
    let (category, item) = analysed_item(&commit(), "+x\n", analysis);
    assert_eq!(category, "文档变更");
    assert_eq!(item.summary, "更新说明");
    assert_eq!(item.impact, "");
    assert_eq!(item.advice, "人工复核");
}

#[test]
fn failed_item_records_the_reason() {
    let (category, item) = failed_item(&commit(), "timeout");
    assert_eq!(category, "分析失败");
    assert_eq!(item.short_hash, "abcdef12");
    assert_eq!(item.summary, "分析失败");
    assert_eq!(item.impact, "");
    assert_eq!(item.advice, "人工复核");
    assert_eq!(item.entry, format!("{}**分析失败：timeout**\n\n---\n\n", TITLE));
}

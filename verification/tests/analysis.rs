use lensup::analysis::{
    is_no_code_change, merge_advice_of, release_subject, stated_advice_of, summary_and_impact_of,
};

#[test]
fn no_code_change_when_only_meta_lines() {
    assert!(is_no_code_change(""));
    assert!(is_no_code_change(
        "commit abc\nAuthor: x\nDate: y\n\ndiff --git a/f b/f\nindex 1..2\n--- a/f\n+++ b/f\n@@ -1 +1 @@\n"
    ));
    // Context lines alone change no code either.
    assert!(is_no_code_change("diff --git a/f b/f\n unchanged line\n"));
}

#[test]
fn code_change_when_a_line_is_added_or_removed() {
    assert!(!is_no_code_change("diff --git a/f b/f\n+++ b/f\n+new line\n"));
    assert!(!is_no_code_change("   -removed line\n"));
    assert!(!is_no_code_change("+"));
}

#[test]
fn summary_and_impact_from_second_and_third_lines() {
    assert_eq!(
        summary_and_impact_of("bug修复\n  总结行  \n影响行\n更多\n", false),
        ("总结行".to_string(), "影响行".to_string())
    );
    // A blank summary is replaced by the impact.
    assert_eq!(
        summary_and_impact_of("bug修复\n\n影响\n", false),
        ("影响".to_string(), "影响".to_string())
    );
    assert_eq!(summary_and_impact_of("bug修复", false), (String::new(), String::new()));
}

#[test]
fn summary_without_code_changes_takes_twenty_characters() {
    let analysis = "文档变更\n\n   一二三四五六七八九十一二三四五六七八九十多余的字\n影响\n";
    assert_eq!(
        summary_and_impact_of(analysis, true),
        ("一二三四五六七八九十一二三四五六七八九十".to_string(), "影响".to_string())
    );
    assert_eq!(
        summary_and_impact_of("文档变更\n\n  \n", true),
        ("不涉及核心代码修改".to_string(), String::new())
    );
    assert_eq!(summary_and_impact_of("文档变更\n短\n", true), ("短".to_string(), String::new()));
}

#[test]
fn stated_advice_prefers_a_marked_line() {
    assert_eq!(stated_advice_of("分类\n建议：尽快合入\n"), Some("尽快合入".to_string()));
    assert_eq!(stated_advice_of("分类\n  建议:  先回归 \n"), Some("先回归".to_string()));
    assert_eq!(stated_advice_of("【建议】 注意回归\n"), Some("注意回归".to_string()));
    // An empty marked line does not count.
    assert_eq!(stated_advice_of("建议：\n建议：第二条\n"), Some("第二条".to_string()));
}

#[test]
fn stated_advice_falls_back_to_keywords_by_priority() {
    assert_eq!(
        stated_advice_of("需要人工复核\n可以立刻合入\n"),
        Some("立刻合入".to_string())
    );
    assert_eq!(stated_advice_of("建议合入，或人工复核\n"), Some("建议合入".to_string()));
    assert_eq!(stated_advice_of("不影响主流程\n"), Some("不影响".to_string()));
    assert_eq!(stated_advice_of("没有结论\n"), None);
}

#[test]
fn merge_advice_by_category() {
    assert_eq!(merge_advice_of("bug修复", "x", true, "人工复核"), "立刻合入");
    assert_eq!(merge_advice_of("安全修复", "x", false, ""), "建议合入");
    assert_eq!(merge_advice_of("功能增强", "Update Translation", false, ""), "建议合入");
    assert_eq!(merge_advice_of("功能增强", "发布新版本", true, ""), "建议合入");
    assert_eq!(merge_advice_of("功能增强", "Add API", true, "建议合入"), "不影响");
    assert_eq!(merge_advice_of("功能增强", "Add API", false, "结论：建议合入"), "建议合入");
    assert_eq!(merge_advice_of("功能增强", "Add API", false, "建议：立刻合入"), "人工复核");
    assert_eq!(merge_advice_of("其他", "x", false, "建议：看看"), "看看");
    assert_eq!(merge_advice_of("其他", "x", false, "无"), "人工复核");
}

#[test]
fn release_subjects_include_any_ver() {
    // `ver` matches inside other words, as the keyword test does.
    assert!(release_subject("add server option"));
    assert!(release_subject("release 1.2"));
    assert!(release_subject("更新 manpage"));
    assert!(!release_subject("add api"));
    assert_eq!(merge_advice_of("功能增强", "Add server option", false, ""), "建议合入");
}

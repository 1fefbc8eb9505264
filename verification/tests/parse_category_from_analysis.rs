use lensup::category::category_from_declaration;
use lensup::parse_category_from_analysis;

#[test]
fn test_parse_category_from_analysis_explicit() {
    assert_eq!(parse_category_from_analysis("分类：bug修复\n内容..."), Some("bug修复"));
    assert_eq!(parse_category_from_analysis("category: feature\n内容..."), Some("功能增强"));
    assert_eq!(parse_category_from_analysis("其他\n内容..."), Some("其他"));
    assert_eq!(parse_category_from_analysis("分类：翻译\n内容..."), Some("功能增强"));
    assert_eq!(parse_category_from_analysis("category: translation\n内容..."), Some("功能增强"));
    assert_eq!(parse_category_from_analysis("翻译\n内容..."), Some("功能增强"));
}

#[test]
fn test_parse_category_from_analysis_none() {
    assert_eq!(parse_category_from_analysis("无分类内容"), None);
}

#[test]
fn parse_category_reads_only_the_trimmed_lowercased_first_line() {
    assert_eq!(parse_category_from_analysis(""), None);
    assert_eq!(parse_category_from_analysis("  构建/CI  \r\nrest"), Some("构建/CI"));
    assert_eq!(parse_category_from_analysis("分类:CVE"), Some("安全修复"));
    assert_eq!(parse_category_from_analysis("Category: Refactor"), Some("重构"));
    assert_eq!(parse_category_from_analysis("\n重构"), None);
    assert_eq!(parse_category_from_analysis("测试"), Some("测试"));
    assert_eq!(parse_category_from_analysis("other"), Some("其他"));
    assert_eq!(parse_category_from_analysis("bug 修复"), None);
}

#[test]
fn declaration_prefixes_are_stripped_in_order() {
    assert_eq!(category_from_declaration("分类：category: 文档"), Some("文档变更"));
    assert_eq!(category_from_declaration("category:分类：文档"), None);
    assert_eq!(category_from_declaration("分类:  兼容 "), Some("兼容性"));
    assert_eq!(category_from_declaration("BUG"), None);
}

#[test]
fn category_names_declare_themselves() {
    let names = [
        "bug修复", "功能增强", "性能优化", "安全修复", "构建/CI", "配置变更", "兼容性", "文档变更",
        "重构", "测试", "其他",
    ];
    for c in names {
        assert_eq!(parse_category_from_analysis(c), Some(c));
        assert_eq!(parse_category_from_analysis(&format!("分类：{}", c)), Some(c));
    }
    for a in ["fix a bug", "nothing", "README 更新", "ci build"] {
        let c = lensup::classify_to_category(a);
        assert_eq!(parse_category_from_analysis(c), Some(c));
    }
}

#[test]
fn only_the_first_line_declares() {
    assert_eq!(parse_category_from_analysis("\nbug修复"), None);
    assert_eq!(parse_category_from_analysis(""), None);
    assert_eq!(
        parse_category_from_analysis("bug修复\r\n其他"),
        parse_category_from_analysis("bug修复\r")
    );
    assert_eq!(parse_category_from_analysis("无分类内容\nbug修复"), None);
}

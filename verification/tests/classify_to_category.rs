use lensup::category::{category_by_keywords, categorize};
use lensup::classify_to_category;

#[test]
fn test_classify_to_category_bug() {
    assert_eq!(classify_to_category("修复 bug"), "bug修复");
    assert_eq!(classify_to_category("This is a bug fix"), "bug修复");
}

#[test]
fn test_classify_to_category_feature() {
    assert_eq!(classify_to_category("新增功能"), "功能增强");
    assert_eq!(classify_to_category("feature: add something"), "功能增强");
}

#[test]
fn test_classify_to_category_translation() {
    assert_eq!(classify_to_category("翻译更新"), "功能增强");
    assert_eq!(classify_to_category("translation: update"), "功能增强");
    assert_eq!(classify_to_category("This commit translates docs"), "功能增强");
}

#[test]
fn test_classify_to_category_other() {
    assert_eq!(classify_to_category("无关内容"), "其他");
}

#[test]
fn classify_lowercases_before_matching() {
    // Upper case keywords only match once lowercased.
    assert_eq!(classify_to_category("BUG"), "bug修复");
    assert_eq!(category_by_keywords("BUG"), "其他");
    assert_eq!(classify_to_category("Improve PERFORMANCE"), "性能优化");
    assert_eq!(classify_to_category("Update README"), "文档变更");
}

#[test]
fn classify_takes_the_first_matching_group() {
    assert_eq!(classify_to_category("修复性能问题"), "bug修复");
    assert_eq!(classify_to_category("安全 配置"), "安全修复");
    assert_eq!(classify_to_category("cmake"), "构建/CI");
    assert_eq!(classify_to_category("decision"), "构建/CI");
    assert_eq!(classify_to_category("config"), "配置变更");
    assert_eq!(classify_to_category("compat layer"), "兼容性");
    assert_eq!(classify_to_category("refactor"), "重构");
    assert_eq!(classify_to_category(""), "其他");
}

#[test]
fn categorize_prefers_the_declaration() {
    assert_eq!(categorize("分类：重构\n修复了一个 bug"), "重构");
    assert_eq!(categorize("没有声明\n修复了一个 bug"), "bug修复");
    assert_eq!(categorize("测试\n"), "测试");
}

#[test]
fn appending_text_only_moves_to_an_earlier_category() {
    let rank = |c: &str| {
        [
            "bug修复", "功能增强", "性能优化", "安全修复", "构建/CI", "配置变更", "兼容性",
            "文档变更", "重构", "其他",
        ]
        .iter()
        .position(|x| *x == c)
        .unwrap()
    };
    let pairs = [("add feature", " and fix a bug"), ("重构代码", "更新 README"), ("其他", "优化性能")];
    for (a, b) in pairs {
        let ca = classify_to_category(a);
        assert!(rank(classify_to_category(&format!("{}{}", a, b))) <= rank(ca));
        assert!(rank(classify_to_category(&format!("{}{}", b, a))) <= rank(ca));
    }
    assert_eq!(classify_to_category("add feature and fix a bug"), "bug修复");
}

#[test]
fn classification_ignores_ascii_case() {
    for a in ["Fix a BUG", "Add Feature", "CMake update", "ΟΔΥΣΣΕΥΣ README", "Σ refactor", "其他"] {
        let c = classify_to_category(a);
        assert_eq!(classify_to_category(&a.to_ascii_uppercase()), c);
        assert_eq!(classify_to_category(&a.to_ascii_lowercase()), c);
    }
}

#[test]
fn appending_greek_text_only_moves_to_an_earlier_category() {
    let a = "ΣΟΦΙΑ add feature";
    let b = " ΛΟΓΟΣ bug";
    assert_eq!(classify_to_category(a), "功能增强");
    assert_eq!(classify_to_category(&format!("{}{}", a, b)), "bug修复");
    assert_eq!(classify_to_category(&format!("{}{}", b, a)), "bug修复");
}

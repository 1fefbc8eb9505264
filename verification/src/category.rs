//! The fixed set of commit categories, and how a model's analysis text is
//! mapped to one: by an explicit declaration on its first line, or else by
//! keywords found anywhere in it.
use vstd::prelude::*;
use crate::text::{
    contains_seq, lines, trim, strip, lower, to_lowercase, plain_text, lemma_contains_in_concat,
    lemma_trim_push_white, lemma_index_of, strip_cr, trim_start, trim_end,
    ascii_lowercase, ascii_uppercase, lemma_ascii_lowercase, is_sigma, sigma_equiv, occurs_at,
    starts, is_white, chars_of, contains_lit, equals_lit, strip_lit,
    trim_vec, trim_at, first_line_bounds,
};
use vstd::string::StrSliceExecFns;

verus! {

/// The categories of the report, in the order its sections list them.
pub open spec fn is_category(c: Seq<char>) -> bool {
    ||| c == "bug修复"@
    ||| c == "功能增强"@
    ||| c == "性能优化"@
    ||| c == "安全修复"@
    ||| c == "构建/CI"@
    ||| c == "配置变更"@
    ||| c == "兼容性"@
    ||| c == "文档变更"@
    ||| c == "重构"@
    ||| c == "测试"@
    ||| c == "其他"@
}

/// The category that keywords in the (lowercased) text `s` point to; the
/// first group of keywords that occurs decides.
pub open spec fn keyword_category(s: Seq<char>) -> Seq<char> {
    if contains_seq(s, "bug"@) || contains_seq(s, "修复"@) || contains_seq(s, "修补"@) {
        "bug修复"@
    } else if contains_seq(s, "翻译"@) || contains_seq(s, "translation"@) || contains_seq(s, "translate"@) {
        "功能增强"@
    } else if contains_seq(s, "功能"@) || contains_seq(s, "增强"@) || contains_seq(s, "feature"@) {
        "功能增强"@
    } else if contains_seq(s, "性能"@) || contains_seq(s, "优化"@) || contains_seq(s, "performance"@) {
        "性能优化"@
    } else if contains_seq(s, "安全"@) || contains_seq(s, "vuln"@) || contains_seq(s, "cve"@) {
        "安全修复"@
    } else if contains_seq(s, "build"@) || contains_seq(s, "ci"@) || contains_seq(s, "cmake"@) || contains_seq(s, "makefile"@) {
        "构建/CI"@
    } else if contains_seq(s, "配置"@) || contains_seq(s, "config"@) || contains_seq(s, "配置变更"@) {
        "配置变更"@
    } else if contains_seq(s, "兼容"@) || contains_seq(s, "compat"@) {
        "兼容性"@
    } else if contains_seq(s, "文档"@) || contains_seq(s, "man/"@) || contains_seq(s, "readme"@) {
        "文档变更"@
    } else if contains_seq(s, "重构"@) || contains_seq(s, "refactor"@) {
        "重构"@
    } else {
        "其他"@
    }
}

/// The category that keywords in the already lowercased text `lowered`
/// point to.
pub fn category_by_keywords(lowered: &str) -> (r: &'static str)
    ensures
        r@ == keyword_category(lowered@),
{
    let s = chars_of(lowered);
    if contains_lit(&s, "bug") || contains_lit(&s, "修复") || contains_lit(&s, "修补") {
        "bug修复"
    } else if contains_lit(&s, "翻译") || contains_lit(&s, "translation") || contains_lit(
        &s,
        "translate",
    ) {
        "功能增强"
    } else if contains_lit(&s, "功能") || contains_lit(&s, "增强") || contains_lit(&s, "feature") {
        "功能增强"
    } else if contains_lit(&s, "性能") || contains_lit(&s, "优化") || contains_lit(
        &s,
        "performance",
    ) {
        "性能优化"
    } else if contains_lit(&s, "安全") || contains_lit(&s, "vuln") || contains_lit(&s, "cve") {
        "安全修复"
    } else if contains_lit(&s, "build") || contains_lit(&s, "ci") || contains_lit(&s, "cmake")
        || contains_lit(&s, "makefile") {
        "构建/CI"
    } else if contains_lit(&s, "配置") || contains_lit(&s, "config") || contains_lit(
        &s,
        "配置变更",
    ) {
        "配置变更"
    } else if contains_lit(&s, "兼容") || contains_lit(&s, "compat") {
        "兼容性"
    } else if contains_lit(&s, "文档") || contains_lit(&s, "man/") || contains_lit(&s, "readme") {
        "文档变更"
    } else if contains_lit(&s, "重构") || contains_lit(&s, "refactor") {
        "重构"
    } else {
        "其他"
    }
}

/// No character of `k` is a form of sigma.
pub open spec fn sigma_free(k: Seq<char>) -> bool {
    forall|p: int| 0 <= p < k.len() ==> !is_sigma(#[trigger] k[p])
}

/// No keyword holds a sigma.
proof fn lemma_keywords_sigma_free()
    ensures
        sigma_free("bug"@),
        sigma_free("修复"@),
        sigma_free("修补"@),
        sigma_free("翻译"@),
        sigma_free("translation"@),
        sigma_free("translate"@),
        sigma_free("功能"@),
        sigma_free("增强"@),
        sigma_free("feature"@),
        sigma_free("性能"@),
        sigma_free("优化"@),
        sigma_free("performance"@),
        sigma_free("安全"@),
        sigma_free("vuln"@),
        sigma_free("cve"@),
        sigma_free("build"@),
        sigma_free("ci"@),
        sigma_free("cmake"@),
        sigma_free("makefile"@),
        sigma_free("配置"@),
        sigma_free("config"@),
        sigma_free("配置变更"@),
        sigma_free("兼容"@),
        sigma_free("compat"@),
        sigma_free("文档"@),
        sigma_free("man/"@),
        sigma_free("readme"@),
        sigma_free("重构"@),
        sigma_free("refactor"@),
{
    reveal_strlit("bug");
    reveal_strlit("修复");
    reveal_strlit("修补");
    reveal_strlit("翻译");
    reveal_strlit("translation");
    reveal_strlit("translate");
    reveal_strlit("功能");
    reveal_strlit("增强");
    reveal_strlit("feature");
    reveal_strlit("性能");
    reveal_strlit("优化");
    reveal_strlit("performance");
    reveal_strlit("安全");
    reveal_strlit("vuln");
    reveal_strlit("cve");
    reveal_strlit("build");
    reveal_strlit("ci");
    reveal_strlit("cmake");
    reveal_strlit("makefile");
    reveal_strlit("配置");
    reveal_strlit("config");
    reveal_strlit("配置变更");
    reveal_strlit("兼容");
    reveal_strlit("compat");
    reveal_strlit("文档");
    reveal_strlit("man/");
    reveal_strlit("readme");
    reveal_strlit("重构");
    reveal_strlit("refactor");
}

/// A text without sigma found in `x` is found in a text that differs from
/// `x` at most in `σ` against `ς`.
proof fn lemma_sigma_equiv_contains(x: Seq<char>, y: Seq<char>, k: Seq<char>)
    requires
        sigma_equiv(x, y),
        sigma_free(k),
        contains_seq(x, k),
    ensures
        contains_seq(y, k),
{
    let i = choose|i: int| #[trigger] occurs_at(x, k, i);
    assert forall|p: int| 0 <= p < k.len() implies y.subrange(i, i + k.len())[p] == #[trigger] k[p] by {
        assert(x.subrange(i, i + k.len())[p] == k[p]);
        assert(x[i + p] == y[i + p] || (is_sigma(x[i + p]) && is_sigma(y[i + p])));
    }
    assert(y.subrange(i, i + k.len()) =~= k);
    assert(occurs_at(y, k, i));
}

/// Texts that differ at most in `σ` against `ς` have the same keywords.
proof fn lemma_sigma_equiv_rank(x: Seq<char>, y: Seq<char>)
    requires
        sigma_equiv(x, y),
    ensures
        keyword_rank(x) == keyword_rank(y),
{
    lemma_keywords_sigma_free();
    assert forall|k: Seq<char>| #![trigger contains_seq(x, k)] #![trigger contains_seq(y, k)]
        sigma_free(k) implies (contains_seq(x, k) <==> contains_seq(y, k)) by {
        if contains_seq(x, k) {
            lemma_sigma_equiv_contains(x, y, k);
        }
        if contains_seq(y, k) {
            lemma_sigma_equiv_contains(y, x, k);
        }
    }
}

/// The keywords of a text of three parts include those of its middle part,
/// so its rank is at most that of the middle part.
proof fn lemma_keyword_rank_middle(x: Seq<char>, y: Seq<char>, z: Seq<char>)
    ensures
        keyword_rank(x + y + z) <= keyword_rank(y),
{
    lemma_keyword_rank_concat(y, z);
    lemma_keyword_rank_concat(y + z, x);
    assert(x + y + z =~= x + (y + z));
}

/// Whether a text's analysis is classified does not depend on the case of
/// its ASCII letters: a text, its ASCII capitals turned to small letters,
/// and its ASCII small letters turned to capitals are classified alike.
pub proof fn lemma_classification_ignores_ascii_case(s: Seq<char>)
    ensures
        keyword_category(lower(ascii_lowercase(ascii_uppercase(s)))) == keyword_category(
            lower(ascii_lowercase(s)),
        ),
        keyword_category(lower(ascii_lowercase(ascii_lowercase(s)))) == keyword_category(
            lower(ascii_lowercase(s)),
        ),
{
    lemma_ascii_lowercase(s);
}

/// Maps a model's analysis text to a fixed category by the keywords in its
/// lowercased form.
pub fn classify_to_category(analysis: &str) -> (r: &'static str)
    ensures
        r@ == keyword_category(lower(analysis@)),
        r@ == keyword_category(lower(ascii_lowercase(analysis@))),
        r@ == ranked_categories()[keyword_rank(lower(analysis@))],
        forall|i: int, j: int|
            0 <= i <= j <= analysis@.len() ==> keyword_rank(lower(analysis@)) <= #[trigger] keyword_rank(
                lower(analysis@.subrange(i, j)),
            ),
{
    let lowered = to_lowercase(analysis);
    let ghost s = analysis@;
    let ghost l = lowered@;
    proof {
        lemma_ascii_lowercase(s);
        assert(l == lower(s));
        assert(lower(ascii_lowercase(s)) == l);
        lemma_keyword_rank(l);
        assert forall|i: int, j: int| 0 <= i <= j <= s.len() implies keyword_rank(l)
            <= #[trigger] keyword_rank(lower(s.subrange(i, j))) by {
            let x = lower(s.take(i));
            let y = lower(s.subrange(i, j));
            let z = lower(s.skip(j));
            assert(sigma_equiv(l, x + y + z));
            lemma_sigma_equiv_rank(l, x + y + z);
            lemma_keyword_rank_middle(x, y, z);
        }
    }
    category_by_keywords(lowered.as_str())
}

/// The label of a declaration line (already lowercased): without a leading
/// `分类：` or `分类:`, then without a leading `category:`, then trimmed.
pub open spec fn declared_label(s: Seq<char>) -> Seq<char> {
    let a = match strip(s, "分类："@) {
        Some(x) => x,
        None => match strip(s, "分类:"@) {
            Some(x) => x,
            None => s,
        },
    };
    let b = match strip(a, "category:"@) {
        Some(x) => x,
        None => a,
    };
    trim(b)
}

/// The category that a declaration label names, if any.
pub open spec fn category_named(l: Seq<char>) -> Option<Seq<char>> {
    if l == "bug修复"@ || l == "bug"@ || l == "修复"@ || l == "修补"@ {
        Some("bug修复"@)
    } else if l == "翻译"@ || l == "translation"@ || l == "translate"@ {
        Some("功能增强"@)
    } else if l == "功能增强"@ || l == "功能"@ || l == "feature"@ {
        Some("功能增强"@)
    } else if l == "性能优化"@ || l == "性能"@ || l == "优化"@ {
        Some("性能优化"@)
    } else if l == "安全修复"@ || l == "安全"@ || l == "cve"@ || l == "vuln"@ {
        Some("安全修复"@)
    } else if l == "构建"@ || l == "ci"@ || l == "构建/ci"@ || l == "build"@ {
        Some("构建/CI"@)
    } else if l == "配置变更"@ || l == "配置"@ || l == "config"@ {
        Some("配置变更"@)
    } else if l == "兼容性"@ || l == "兼容"@ || l == "compat"@ {
        Some("兼容性"@)
    } else if l == "文档变更"@ || l == "文档"@ {
        Some("文档变更"@)
    } else if l == "重构"@ || l == "refactor"@ {
        Some("重构"@)
    } else if l == "测试"@ {
        Some("测试"@)
    } else if l == "其他"@ || l == "other"@ {
        Some("其他"@)
    } else {
        None
    }
}

/// The category that the first line of `analysis` declares, if it declares
/// one: the line is trimmed and lowercased before it is read.
pub open spec fn declared_category(analysis: Seq<char>) -> Option<Seq<char>> {
    if lines(analysis).len() == 0 {
        None
    } else {
        category_named(declared_label(lower(trim(lines(analysis)[0]))))
    }
}

/// The category named by the label `l`.
fn category_of_label(l: &Vec<char>) -> (r: Option<&'static str>)
    ensures
        r is Some <==> category_named(l@) is Some,
        r matches Some(c) ==> category_named(l@) == Some(c@),
{
    if equals_lit(l, "bug修复") || equals_lit(l, "bug") || equals_lit(l, "修复") || equals_lit(
        l,
        "修补",
    ) {
        Some("bug修复")
    } else if equals_lit(l, "翻译") || equals_lit(l, "translation") || equals_lit(l, "translate") {
        Some("功能增强")
    } else if equals_lit(l, "功能增强") || equals_lit(l, "功能") || equals_lit(l, "feature") {
        Some("功能增强")
    } else if equals_lit(l, "性能优化") || equals_lit(l, "性能") || equals_lit(l, "优化") {
        Some("性能优化")
    } else if equals_lit(l, "安全修复") || equals_lit(l, "安全") || equals_lit(l, "cve")
        || equals_lit(l, "vuln") {
        Some("安全修复")
    } else if equals_lit(l, "构建") || equals_lit(l, "ci") || equals_lit(l, "构建/ci") || equals_lit(
        l,
        "build",
    ) {
        Some("构建/CI")
    } else if equals_lit(l, "配置变更") || equals_lit(l, "配置") || equals_lit(l, "config") {
        Some("配置变更")
    } else if equals_lit(l, "兼容性") || equals_lit(l, "兼容") || equals_lit(l, "compat") {
        Some("兼容性")
    } else if equals_lit(l, "文档变更") || equals_lit(l, "文档") {
        Some("文档变更")
    } else if equals_lit(l, "重构") || equals_lit(l, "refactor") {
        Some("重构")
    } else if equals_lit(l, "测试") {
        Some("测试")
    } else if equals_lit(l, "其他") || equals_lit(l, "other") {
        Some("其他")
    } else {
        None
    }
}

/// The category that a (trimmed, lowercased) declaration line names.
pub fn category_from_declaration(lowered_line: &str) -> (r: Option<&'static str>)
    ensures
        r is Some <==> category_named(declared_label(lowered_line@)) is Some,
        r matches Some(c) ==> category_named(declared_label(lowered_line@)) == Some(c@),
{
    let s = chars_of(lowered_line);
    let a = match strip_lit(&s, "分类：") {
        Some(x) => x,
        None => match strip_lit(&s, "分类:") {
            Some(x) => x,
            None => s,
        },
    };
    let b = match strip_lit(&a, "category:") {
        Some(x) => x,
        None => a,
    };
    let label = trim_vec(&b);
    category_of_label(&label)
}

/// Reads an explicit category declaration from the first line of a model's
/// analysis text.
pub fn parse_category_from_analysis(analysis: &str) -> (r: Option<&'static str>)
    ensures
        r is Some <==> declared_category(analysis@) is Some,
        r matches Some(c) ==> declared_category(analysis@) == Some(c@),
{
    let v = chars_of(analysis);
    match first_line_bounds(&v) {
        None => None,
        Some((lo, hi)) => {
            let (a, b) = trim_at(&v, lo, hi);
            let line = analysis.substring_char(a, b);
            let lowered = to_lowercase(line);
            category_from_declaration(lowered.as_str())
        },
    }
}

/// The category of a commit: the one its analysis declares on its first
/// line, or else the one its keywords point to.
pub open spec fn commit_category(analysis: Seq<char>) -> Seq<char> {
    match declared_category(analysis) {
        Some(c) => c,
        None => keyword_category(lower(analysis)),
    }
}

/// The category a commit is filed under.
pub fn categorize(analysis: &str) -> (r: &'static str)
    ensures
        r@ == commit_category(analysis@),
{
    match parse_category_from_analysis(analysis) {
        Some(c) => c,
        None => classify_to_category(analysis),
    }
}

/// Keywords always lead to one of the fixed categories, and never to `测试`.
pub proof fn lemma_keyword_category_is_category(s: Seq<char>)
    ensures
        is_category(keyword_category(s)),
        keyword_category(s) != "测试"@,
{
    reveal_strlit("测试");
    reveal_strlit("bug修复");
    reveal_strlit("功能增强");
    reveal_strlit("性能优化");
    reveal_strlit("安全修复");
    reveal_strlit("构建/CI");
    reveal_strlit("配置变更");
    reveal_strlit("兼容性");
    reveal_strlit("文档变更");
    reveal_strlit("重构");
    reveal_strlit("其他");
    assert("测试"@[0] != "重构"@[0]);
    assert("测试"@[0] != "其他"@[0]);
    assert("测试"@.len() != "bug修复"@.len());
    assert("测试"@.len() != "功能增强"@.len());
    assert("测试"@.len() != "性能优化"@.len());
    assert("测试"@.len() != "安全修复"@.len());
    assert("测试"@.len() != "构建/CI"@.len());
    assert("测试"@.len() != "配置变更"@.len());
    assert("测试"@.len() != "兼容性"@.len());
    assert("测试"@.len() != "文档变更"@.len());
}

/// A declared category is always one of the fixed categories.
pub proof fn lemma_declared_category_is_category(analysis: Seq<char>)
    ensures
        declared_category(analysis) matches Some(c) ==> is_category(c),
{
}

/// Every commit is filed under one of the fixed categories.
pub proof fn lemma_commit_category_is_category(analysis: Seq<char>)
    ensures
        is_category(commit_category(analysis)),
{
    lemma_keyword_category_is_category(lower(analysis));
}

/// The categories that keywords lead to, from the first group of keywords
/// tested to the last; `其他` when none occurs.
pub open spec fn ranked_categories() -> Seq<Seq<char>> {
    seq![
        "bug修复"@,
        "功能增强"@,
        "性能优化"@,
        "安全修复"@,
        "构建/CI"@,
        "配置变更"@,
        "兼容性"@,
        "文档变更"@,
        "重构"@,
        "其他"@,
    ]
}

/// The position in `ranked_categories` of the category that keywords in
/// `s` point to.
pub open spec fn keyword_rank(s: Seq<char>) -> int {
    if contains_seq(s, "bug"@) || contains_seq(s, "修复"@) || contains_seq(s, "修补"@) {
        0
    } else if contains_seq(s, "翻译"@) || contains_seq(s, "translation"@) || contains_seq(s, "translate"@) {
        1
    } else if contains_seq(s, "功能"@) || contains_seq(s, "增强"@) || contains_seq(s, "feature"@) {
        1
    } else if contains_seq(s, "性能"@) || contains_seq(s, "优化"@) || contains_seq(s, "performance"@) {
        2
    } else if contains_seq(s, "安全"@) || contains_seq(s, "vuln"@) || contains_seq(s, "cve"@) {
        3
    } else if contains_seq(s, "build"@) || contains_seq(s, "ci"@) || contains_seq(s, "cmake"@) || contains_seq(s, "makefile"@) {
        4
    } else if contains_seq(s, "配置"@) || contains_seq(s, "config"@) || contains_seq(s, "配置变更"@) {
        5
    } else if contains_seq(s, "兼容"@) || contains_seq(s, "compat"@) {
        6
    } else if contains_seq(s, "文档"@) || contains_seq(s, "man/"@) || contains_seq(s, "readme"@) {
        7
    } else if contains_seq(s, "重构"@) || contains_seq(s, "refactor"@) {
        8
    } else {
        9
    }
}

/// The category that keywords point to is the one at their rank.
pub proof fn lemma_keyword_rank(s: Seq<char>)
    ensures
        0 <= keyword_rank(s) < ranked_categories().len(),
        keyword_category(s) == ranked_categories()[keyword_rank(s)],
{
}

/// Text put before or after `x` can only move its category to an earlier
/// one in `ranked_categories`, never to a later one.
pub proof fn lemma_keyword_rank_concat(x: Seq<char>, y: Seq<char>)
    ensures
        keyword_rank(x + y) <= keyword_rank(x),
        keyword_rank(y + x) <= keyword_rank(x),
{
    assert forall|k: Seq<char>| #[trigger] contains_seq(x, k) implies contains_seq(x + y, k)
        && contains_seq(y + x, k) by {
        lemma_contains_in_concat(x, y, k);
    }
}

/// No label that is empty names a category.
proof fn lemma_empty_label_names_nothing()
    ensures
        category_named(Seq::<char>::empty()) is None,
{
    reveal_strlit("bug修复");
    assert("bug修复"@.len() > 0);
    reveal_strlit("bug");
    assert("bug"@.len() > 0);
    reveal_strlit("修复");
    assert("修复"@.len() > 0);
    reveal_strlit("修补");
    assert("修补"@.len() > 0);
    reveal_strlit("翻译");
    assert("翻译"@.len() > 0);
    reveal_strlit("translation");
    assert("translation"@.len() > 0);
    reveal_strlit("translate");
    assert("translate"@.len() > 0);
    reveal_strlit("功能增强");
    assert("功能增强"@.len() > 0);
    reveal_strlit("功能");
    assert("功能"@.len() > 0);
    reveal_strlit("feature");
    assert("feature"@.len() > 0);
    reveal_strlit("性能优化");
    assert("性能优化"@.len() > 0);
    reveal_strlit("性能");
    assert("性能"@.len() > 0);
    reveal_strlit("优化");
    assert("优化"@.len() > 0);
    reveal_strlit("安全修复");
    assert("安全修复"@.len() > 0);
    reveal_strlit("安全");
    assert("安全"@.len() > 0);
    reveal_strlit("cve");
    assert("cve"@.len() > 0);
    reveal_strlit("vuln");
    assert("vuln"@.len() > 0);
    reveal_strlit("构建");
    assert("构建"@.len() > 0);
    reveal_strlit("ci");
    assert("ci"@.len() > 0);
    reveal_strlit("构建/ci");
    assert("构建/ci"@.len() > 0);
    reveal_strlit("build");
    assert("build"@.len() > 0);
    reveal_strlit("配置变更");
    assert("配置变更"@.len() > 0);
    reveal_strlit("配置");
    assert("配置"@.len() > 0);
    reveal_strlit("config");
    assert("config"@.len() > 0);
    reveal_strlit("兼容性");
    assert("兼容性"@.len() > 0);
    reveal_strlit("兼容");
    assert("兼容"@.len() > 0);
    reveal_strlit("compat");
    assert("compat"@.len() > 0);
    reveal_strlit("文档变更");
    assert("文档变更"@.len() > 0);
    reveal_strlit("文档");
    assert("文档"@.len() > 0);
    reveal_strlit("重构");
    assert("重构"@.len() > 0);
    reveal_strlit("refactor");
    assert("refactor"@.len() > 0);
    reveal_strlit("测试");
    assert("测试"@.len() > 0);
    reveal_strlit("其他");
    assert("其他"@.len() > 0);
    reveal_strlit("other");
    assert("other"@.len() > 0);
}

/// Only the first line of an analysis can declare its category: nothing
/// after the first line break changes the declared category.
pub proof fn lemma_only_first_line_declares(l: Seq<char>, rest: Seq<char>)
    requires
        !l.contains('\n'),
    ensures
        declared_category(l + seq!['\n'] + rest) == declared_category(l),
{
    let t = l + seq!['\n'] + rest;
    assert forall|j: int| 0 <= j < l.len() implies t[j] != '\n' by {
        assert(t[j] == l[j]);
    }
    assert(t[l.len() as int] == '\n');
    lemma_index_of(t, '\n', l.len() as int);
    assert(t.take(l.len() as int) =~= l);
    assert(lines(t)[0] == strip_cr(l));
    if l.len() == 0 {
        assert(strip_cr(l) =~= Seq::<char>::empty());
        assert(trim_start(Seq::<char>::empty()) == Seq::<char>::empty());
        assert(trim_end(Seq::<char>::empty()) == Seq::<char>::empty());
        assert(ascii_lowercase(Seq::<char>::empty()) =~= Seq::<char>::empty());
        assert(declared_label(Seq::<char>::empty()) == Seq::<char>::empty());
        lemma_empty_label_names_nothing();
    } else {
        assert forall|j: int| 0 <= j < l.len() implies l[j] != '\n' by {
            if l[j] == '\n' {
                assert(l.contains('\n'));
            }
        }
        lemma_index_of(l, '\n', l.len() as int);
        assert(lines(l)[0] == l);
        if l.last() == '\r' {
            assert(strip_cr(l).push('\r') =~= l);
            lemma_trim_push_white(strip_cr(l), '\r');
        }
    }
}

/// A name without whitespace or line breaks, of plain characters, whose
/// lowercase form `lc` names it, declares itself, alone or after `分类：`.
proof fn lemma_name_declares(c: Seq<char>, lc: Seq<char>)
    requires
        c.len() > 0,
        plain_text(c),
        forall|j: int| 0 <= j < c.len() ==> #[trigger] c[j] != '\n' && !is_white(c[j]),
        ascii_lowercase(c) == lc,
        forall|j: int| 0 <= j < lc.len() ==> !is_white(#[trigger] lc[j]),
        category_named(lc) == Some(c),
        !starts(lc, "分类："@),
        !starts(lc, "分类:"@),
        !starts(lc, "category:"@),
    ensures
        declared_category(c) == Some(c),
        declared_category("分类："@ + c) == Some(c),
{
    reveal_strlit("分类：");
    let head = "分类："@;
    let p = head + c;
    assert(lc.len() == c.len());
    // `c` alone is one line, and trimming leaves it as it is.
    assert(!c.contains('\n'));
    lemma_index_of(c, '\n', c.len() as int);
    assert(lines(c)[0] == c);
    assert(trim_start(c) == c);
    assert(trim_end(c) == c);
    assert(trim_start(lc) == lc);
    assert(trim_end(lc) == lc);
    assert(declared_label(lc) == lc);
    // So is `分类：` followed by `c`.
    assert forall|j: int| 0 <= j < p.len() implies #[trigger] p[j] != '\n' && !is_white(p[j])
        && plain_char_at(p, j) by {
        if j >= head.len() {
            assert(p[j] == c[j - head.len()]);
        }
    }
    lemma_index_of(p, '\n', p.len() as int);
    assert(lines(p)[0] == p);
    assert(trim_start(p) == p);
    assert(trim_end(p) == p);
    assert(plain_text(p));
    assert(ascii_lowercase(p) =~= head + lc);
    assert((head + lc).subrange(0, head.len() as int) =~= head);
    assert((head + lc).skip(head.len() as int) =~= lc);
    assert(declared_label(head + lc) == lc);
}

/// Whether the character of `s` at `j` is plain.
spec fn plain_char_at(s: Seq<char>, j: int) -> bool {
    crate::text::plain_char(s[j])
}

/// The label that each category's name lowercases to names that category.
proof fn lemma_category_labels()
    ensures
        category_named("bug修复"@) == Some("bug修复"@),
        category_named("功能增强"@) == Some("功能增强"@),
        category_named("性能优化"@) == Some("性能优化"@),
        category_named("安全修复"@) == Some("安全修复"@),
        category_named("构建/ci"@) == Some("构建/CI"@),
        category_named("配置变更"@) == Some("配置变更"@),
        category_named("兼容性"@) == Some("兼容性"@),
        category_named("文档变更"@) == Some("文档变更"@),
        category_named("重构"@) == Some("重构"@),
        category_named("测试"@) == Some("测试"@),
        category_named("其他"@) == Some("其他"@),
{
    reveal_strlit("bug修复");
    assert("bug修复"@.len() == 5 && "bug修复"@[0] == 'b');
    reveal_strlit("bug");
    assert("bug"@.len() == 3 && "bug"@[0] == 'b');
    reveal_strlit("修复");
    assert("修复"@.len() == 2 && "修复"@[0] == '修');
    reveal_strlit("修补");
    assert("修补"@.len() == 2 && "修补"@[0] == '修');
    reveal_strlit("翻译");
    assert("翻译"@.len() == 2 && "翻译"@[0] == '翻');
    reveal_strlit("translation");
    assert("translation"@.len() == 11 && "translation"@[0] == 't');
    reveal_strlit("translate");
    assert("translate"@.len() == 9 && "translate"@[0] == 't');
    reveal_strlit("功能增强");
    assert("功能增强"@.len() == 4 && "功能增强"@[0] == '功');
    reveal_strlit("功能");
    assert("功能"@.len() == 2 && "功能"@[0] == '功');
    reveal_strlit("feature");
    assert("feature"@.len() == 7 && "feature"@[0] == 'f');
    reveal_strlit("性能优化");
    assert("性能优化"@.len() == 4 && "性能优化"@[0] == '性');
    reveal_strlit("性能");
    assert("性能"@.len() == 2 && "性能"@[0] == '性');
    reveal_strlit("优化");
    assert("优化"@.len() == 2 && "优化"@[0] == '优');
    reveal_strlit("安全修复");
    assert("安全修复"@.len() == 4 && "安全修复"@[0] == '安');
    reveal_strlit("安全");
    assert("安全"@.len() == 2 && "安全"@[0] == '安');
    reveal_strlit("cve");
    assert("cve"@.len() == 3 && "cve"@[0] == 'c');
    reveal_strlit("vuln");
    assert("vuln"@.len() == 4 && "vuln"@[0] == 'v');
    reveal_strlit("构建");
    assert("构建"@.len() == 2 && "构建"@[0] == '构');
    reveal_strlit("ci");
    assert("ci"@.len() == 2 && "ci"@[0] == 'c');
    reveal_strlit("构建/ci");
    assert("构建/ci"@.len() == 5 && "构建/ci"@[0] == '构');
    reveal_strlit("build");
    assert("build"@.len() == 5 && "build"@[0] == 'b');
    reveal_strlit("配置变更");
    assert("配置变更"@.len() == 4 && "配置变更"@[0] == '配');
    reveal_strlit("配置");
    assert("配置"@.len() == 2 && "配置"@[0] == '配');
    reveal_strlit("config");
    assert("config"@.len() == 6 && "config"@[0] == 'c');
    reveal_strlit("兼容性");
    assert("兼容性"@.len() == 3 && "兼容性"@[0] == '兼');
    reveal_strlit("兼容");
    assert("兼容"@.len() == 2 && "兼容"@[0] == '兼');
    reveal_strlit("compat");
    assert("compat"@.len() == 6 && "compat"@[0] == 'c');
    reveal_strlit("文档变更");
    assert("文档变更"@.len() == 4 && "文档变更"@[0] == '文');
    reveal_strlit("文档");
    assert("文档"@.len() == 2 && "文档"@[0] == '文');
    reveal_strlit("重构");
    assert("重构"@.len() == 2 && "重构"@[0] == '重');
    reveal_strlit("refactor");
    assert("refactor"@.len() == 8 && "refactor"@[0] == 'r');
    reveal_strlit("测试");
    assert("测试"@.len() == 2 && "测试"@[0] == '测');
    reveal_strlit("其他");
    assert("其他"@.len() == 2 && "其他"@[0] == '其');
    reveal_strlit("other");
    assert("other"@.len() == 5 && "other"@[0] == 'o');
    reveal_strlit("构建/CI");
    assert("构建/CI"@.len() == 5 && "构建/CI"@[0] == '构');
}

/// A text whose first character differs from that of `p` does not begin
/// with `p`.
proof fn lemma_not_starts(s: Seq<char>, p: Seq<char>)
    requires
        s.len() > 0,
        p.len() > 0,
        s[0] != p[0],
    ensures
        !starts(s, p),
{
    if starts(s, p) {
        assert(s.subrange(0, p.len() as int)[0] == s[0]);
    }
}

/// Each category name declares itself, alone or after `分类：`: an
/// analysis whose first line is a category's name is filed under it.
#[verifier::spinoff_prover]
#[verifier::rlimit(100)]
pub proof fn lemma_category_names_declare_themselves(c: Seq<char>)
    requires
        is_category(c),
    ensures
        declared_category(c) == Some(c),
        declared_category("分类："@ + c) == Some(c),
{
    reveal_strlit("分类：");
    reveal_strlit("分类:");
    reveal_strlit("category:");
    if c == "bug修复"@ {
        reveal_strlit("bug修复");
        assert(ascii_lowercase(c) =~= "bug修复"@);
        lemma_category_labels();
        lemma_not_starts("bug修复"@, "分类："@);
        lemma_not_starts("bug修复"@, "分类:"@);
        lemma_not_starts("bug修复"@, "category:"@);
        lemma_name_declares(c, "bug修复"@);
    } else if c == "功能增强"@ {
        reveal_strlit("功能增强");
        assert(ascii_lowercase(c) =~= "功能增强"@);
        lemma_category_labels();
        lemma_not_starts("功能增强"@, "分类："@);
        lemma_not_starts("功能增强"@, "分类:"@);
        lemma_not_starts("功能增强"@, "category:"@);
        lemma_name_declares(c, "功能增强"@);
    } else if c == "性能优化"@ {
        reveal_strlit("性能优化");
        assert(ascii_lowercase(c) =~= "性能优化"@);
        lemma_category_labels();
        lemma_not_starts("性能优化"@, "分类："@);
        lemma_not_starts("性能优化"@, "分类:"@);
        lemma_not_starts("性能优化"@, "category:"@);
        lemma_name_declares(c, "性能优化"@);
    } else if c == "安全修复"@ {
        reveal_strlit("安全修复");
        assert(ascii_lowercase(c) =~= "安全修复"@);
        lemma_category_labels();
        lemma_not_starts("安全修复"@, "分类："@);
        lemma_not_starts("安全修复"@, "分类:"@);
        lemma_not_starts("安全修复"@, "category:"@);
        lemma_name_declares(c, "安全修复"@);
    } else if c == "构建/CI"@ {
        reveal_strlit("构建/CI");
        reveal_strlit("构建/ci");
        assert(ascii_lowercase(c) =~= "构建/ci"@);
        lemma_category_labels();
        lemma_not_starts("构建/ci"@, "分类："@);
        lemma_not_starts("构建/ci"@, "分类:"@);
        lemma_not_starts("构建/ci"@, "category:"@);
        lemma_name_declares(c, "构建/ci"@);
    } else if c == "配置变更"@ {
        reveal_strlit("配置变更");
        assert(ascii_lowercase(c) =~= "配置变更"@);
        lemma_category_labels();
        lemma_not_starts("配置变更"@, "分类："@);
        lemma_not_starts("配置变更"@, "分类:"@);
        lemma_not_starts("配置变更"@, "category:"@);
        lemma_name_declares(c, "配置变更"@);
    } else if c == "兼容性"@ {
        reveal_strlit("兼容性");
        assert(ascii_lowercase(c) =~= "兼容性"@);
        lemma_category_labels();
        lemma_not_starts("兼容性"@, "分类："@);
        lemma_not_starts("兼容性"@, "分类:"@);
        lemma_not_starts("兼容性"@, "category:"@);
        lemma_name_declares(c, "兼容性"@);
    } else if c == "文档变更"@ {
        reveal_strlit("文档变更");
        assert(ascii_lowercase(c) =~= "文档变更"@);
        lemma_category_labels();
        lemma_not_starts("文档变更"@, "分类："@);
        lemma_not_starts("文档变更"@, "分类:"@);
        lemma_not_starts("文档变更"@, "category:"@);
        lemma_name_declares(c, "文档变更"@);
    } else if c == "重构"@ {
        reveal_strlit("重构");
        assert(ascii_lowercase(c) =~= "重构"@);
        lemma_category_labels();
        lemma_not_starts("重构"@, "分类："@);
        lemma_not_starts("重构"@, "分类:"@);
        lemma_not_starts("重构"@, "category:"@);
        lemma_name_declares(c, "重构"@);
    } else if c == "测试"@ {
        reveal_strlit("测试");
        assert(ascii_lowercase(c) =~= "测试"@);
        lemma_category_labels();
        lemma_not_starts("测试"@, "分类："@);
        lemma_not_starts("测试"@, "分类:"@);
        lemma_not_starts("测试"@, "category:"@);
        lemma_name_declares(c, "测试"@);
    } else if c == "其他"@ {
        reveal_strlit("其他");
        assert(ascii_lowercase(c) =~= "其他"@);
        lemma_category_labels();
        lemma_not_starts("其他"@, "分类："@);
        lemma_not_starts("其他"@, "分类:"@);
        lemma_not_starts("其他"@, "category:"@);
        lemma_name_declares(c, "其他"@);
    }
}

/// A category that keywords give declares itself when written as the first
/// line of an analysis.
pub proof fn lemma_keyword_category_declares_itself(s: Seq<char>)
    ensures
        declared_category(keyword_category(s)) == Some(keyword_category(s)),
{
    lemma_keyword_category_is_category(s);
    lemma_category_names_declare_themselves(keyword_category(s));
}

/// Each keyword decides the category of a text that contains it, unless a
/// keyword of an earlier category also occurs: the category is that of the
/// keyword or one tested before it, in the order `bug修复`, `功能增强`,
/// `性能优化`, `安全修复`, `构建/CI`, `配置变更`, `兼容性`, `文档变更`, `重构`;
/// a text without any keyword is `其他`.
pub proof fn lemma_keywords_decide(s: Seq<char>)
    ensures
        contains_seq(s, "bug"@) ==> (keyword_category(s) == "bug修复"@),
        contains_seq(s, "修复"@) ==> (keyword_category(s) == "bug修复"@),
        contains_seq(s, "修补"@) ==> (keyword_category(s) == "bug修复"@),
        contains_seq(s, "翻译"@) ==> (keyword_category(s) == "bug修复"@ || keyword_category(s) == "功能增强"@),
        contains_seq(s, "translation"@) ==> (keyword_category(s) == "bug修复"@ || keyword_category(s) == "功能增强"@),
        contains_seq(s, "translate"@) ==> (keyword_category(s) == "bug修复"@ || keyword_category(s) == "功能增强"@),
        contains_seq(s, "功能"@) ==> (keyword_category(s) == "bug修复"@ || keyword_category(s) == "功能增强"@),
        contains_seq(s, "增强"@) ==> (keyword_category(s) == "bug修复"@ || keyword_category(s) == "功能增强"@),
        contains_seq(s, "feature"@) ==> (keyword_category(s) == "bug修复"@ || keyword_category(s) == "功能增强"@),
        contains_seq(s, "性能"@) ==> (keyword_category(s) == "bug修复"@ || keyword_category(s) == "功能增强"@ || keyword_category(s) == "性能优化"@),
        contains_seq(s, "优化"@) ==> (keyword_category(s) == "bug修复"@ || keyword_category(s) == "功能增强"@ || keyword_category(s) == "性能优化"@),
        contains_seq(s, "performance"@) ==> (keyword_category(s) == "bug修复"@ || keyword_category(s) == "功能增强"@ || keyword_category(s) == "性能优化"@),
        contains_seq(s, "安全"@) ==> (keyword_category(s) == "bug修复"@ || keyword_category(s) == "功能增强"@ || keyword_category(s) == "性能优化"@ || keyword_category(s) == "安全修复"@),
        contains_seq(s, "vuln"@) ==> (keyword_category(s) == "bug修复"@ || keyword_category(s) == "功能增强"@ || keyword_category(s) == "性能优化"@ || keyword_category(s) == "安全修复"@),
        contains_seq(s, "cve"@) ==> (keyword_category(s) == "bug修复"@ || keyword_category(s) == "功能增强"@ || keyword_category(s) == "性能优化"@ || keyword_category(s) == "安全修复"@),
        contains_seq(s, "build"@) ==> (keyword_category(s) == "bug修复"@ || keyword_category(s) == "功能增强"@ || keyword_category(s) == "性能优化"@ || keyword_category(s) == "安全修复"@ || keyword_category(s) == "构建/CI"@),
        contains_seq(s, "ci"@) ==> (keyword_category(s) == "bug修复"@ || keyword_category(s) == "功能增强"@ || keyword_category(s) == "性能优化"@ || keyword_category(s) == "安全修复"@ || keyword_category(s) == "构建/CI"@),
        contains_seq(s, "cmake"@) ==> (keyword_category(s) == "bug修复"@ || keyword_category(s) == "功能增强"@ || keyword_category(s) == "性能优化"@ || keyword_category(s) == "安全修复"@ || keyword_category(s) == "构建/CI"@),
        contains_seq(s, "makefile"@) ==> (keyword_category(s) == "bug修复"@ || keyword_category(s) == "功能增强"@ || keyword_category(s) == "性能优化"@ || keyword_category(s) == "安全修复"@ || keyword_category(s) == "构建/CI"@),
        contains_seq(s, "配置"@) ==> (keyword_category(s) == "bug修复"@ || keyword_category(s) == "功能增强"@ || keyword_category(s) == "性能优化"@ || keyword_category(s) == "安全修复"@ || keyword_category(s) == "构建/CI"@ || keyword_category(s) == "配置变更"@),
        contains_seq(s, "config"@) ==> (keyword_category(s) == "bug修复"@ || keyword_category(s) == "功能增强"@ || keyword_category(s) == "性能优化"@ || keyword_category(s) == "安全修复"@ || keyword_category(s) == "构建/CI"@ || keyword_category(s) == "配置变更"@),
        contains_seq(s, "配置变更"@) ==> (keyword_category(s) == "bug修复"@ || keyword_category(s) == "功能增强"@ || keyword_category(s) == "性能优化"@ || keyword_category(s) == "安全修复"@ || keyword_category(s) == "构建/CI"@ || keyword_category(s) == "配置变更"@),
        contains_seq(s, "兼容"@) ==> (keyword_category(s) == "bug修复"@ || keyword_category(s) == "功能增强"@ || keyword_category(s) == "性能优化"@ || keyword_category(s) == "安全修复"@ || keyword_category(s) == "构建/CI"@ || keyword_category(s) == "配置变更"@ || keyword_category(s) == "兼容性"@),
        contains_seq(s, "compat"@) ==> (keyword_category(s) == "bug修复"@ || keyword_category(s) == "功能增强"@ || keyword_category(s) == "性能优化"@ || keyword_category(s) == "安全修复"@ || keyword_category(s) == "构建/CI"@ || keyword_category(s) == "配置变更"@ || keyword_category(s) == "兼容性"@),
        contains_seq(s, "文档"@) ==> (keyword_category(s) == "bug修复"@ || keyword_category(s) == "功能增强"@ || keyword_category(s) == "性能优化"@ || keyword_category(s) == "安全修复"@ || keyword_category(s) == "构建/CI"@ || keyword_category(s) == "配置变更"@ || keyword_category(s) == "兼容性"@ || keyword_category(s) == "文档变更"@),
        contains_seq(s, "man/"@) ==> (keyword_category(s) == "bug修复"@ || keyword_category(s) == "功能增强"@ || keyword_category(s) == "性能优化"@ || keyword_category(s) == "安全修复"@ || keyword_category(s) == "构建/CI"@ || keyword_category(s) == "配置变更"@ || keyword_category(s) == "兼容性"@ || keyword_category(s) == "文档变更"@),
        contains_seq(s, "readme"@) ==> (keyword_category(s) == "bug修复"@ || keyword_category(s) == "功能增强"@ || keyword_category(s) == "性能优化"@ || keyword_category(s) == "安全修复"@ || keyword_category(s) == "构建/CI"@ || keyword_category(s) == "配置变更"@ || keyword_category(s) == "兼容性"@ || keyword_category(s) == "文档变更"@),
        contains_seq(s, "重构"@) ==> (keyword_category(s) == "bug修复"@ || keyword_category(s) == "功能增强"@ || keyword_category(s) == "性能优化"@ || keyword_category(s) == "安全修复"@ || keyword_category(s) == "构建/CI"@ || keyword_category(s) == "配置变更"@ || keyword_category(s) == "兼容性"@ || keyword_category(s) == "文档变更"@ || keyword_category(s) == "重构"@),
        contains_seq(s, "refactor"@) ==> (keyword_category(s) == "bug修复"@ || keyword_category(s) == "功能增强"@ || keyword_category(s) == "性能优化"@ || keyword_category(s) == "安全修复"@ || keyword_category(s) == "构建/CI"@ || keyword_category(s) == "配置变更"@ || keyword_category(s) == "兼容性"@ || keyword_category(s) == "文档变更"@ || keyword_category(s) == "重构"@),
        (!contains_seq(s, "bug"@) && !contains_seq(s, "修复"@) && !contains_seq(s, "修补"@) && !contains_seq(s, "翻译"@) && !contains_seq(s, "translation"@) && !contains_seq(s, "translate"@) && !contains_seq(s, "功能"@) && !contains_seq(s, "增强"@) && !contains_seq(s, "feature"@) && !contains_seq(s, "性能"@) && !contains_seq(s, "优化"@) && !contains_seq(s, "performance"@) && !contains_seq(s, "安全"@) && !contains_seq(s, "vuln"@) && !contains_seq(s, "cve"@) && !contains_seq(s, "build"@) && !contains_seq(s, "ci"@) && !contains_seq(s, "cmake"@) && !contains_seq(s, "makefile"@) && !contains_seq(s, "配置"@) && !contains_seq(s, "config"@) && !contains_seq(s, "配置变更"@) && !contains_seq(s, "兼容"@) && !contains_seq(s, "compat"@) && !contains_seq(s, "文档"@) && !contains_seq(s, "man/"@) && !contains_seq(s, "readme"@) && !contains_seq(s, "重构"@) && !contains_seq(s, "refactor"@)) ==> keyword_category(s) == "其他"@,
{
}

/// Every label of a declaration names its category.
#[verifier::spinoff_prover]
#[verifier::rlimit(50)]
proof fn lemma_label_table()
    ensures
        category_named("bug修复"@) == Some("bug修复"@),
        category_named("bug"@) == Some("bug修复"@),
        category_named("修复"@) == Some("bug修复"@),
        category_named("修补"@) == Some("bug修复"@),
        category_named("翻译"@) == Some("功能增强"@),
        category_named("translation"@) == Some("功能增强"@),
        category_named("translate"@) == Some("功能增强"@),
        category_named("功能增强"@) == Some("功能增强"@),
        category_named("功能"@) == Some("功能增强"@),
        category_named("feature"@) == Some("功能增强"@),
        category_named("性能优化"@) == Some("性能优化"@),
        category_named("性能"@) == Some("性能优化"@),
        category_named("优化"@) == Some("性能优化"@),
        category_named("安全修复"@) == Some("安全修复"@),
        category_named("安全"@) == Some("安全修复"@),
        category_named("cve"@) == Some("安全修复"@),
        category_named("vuln"@) == Some("安全修复"@),
        category_named("构建"@) == Some("构建/CI"@),
        category_named("ci"@) == Some("构建/CI"@),
        category_named("构建/ci"@) == Some("构建/CI"@),
        category_named("build"@) == Some("构建/CI"@),
        category_named("配置变更"@) == Some("配置变更"@),
        category_named("配置"@) == Some("配置变更"@),
        category_named("config"@) == Some("配置变更"@),
        category_named("兼容性"@) == Some("兼容性"@),
        category_named("兼容"@) == Some("兼容性"@),
        category_named("compat"@) == Some("兼容性"@),
        category_named("文档变更"@) == Some("文档变更"@),
        category_named("文档"@) == Some("文档变更"@),
        category_named("重构"@) == Some("重构"@),
        category_named("refactor"@) == Some("重构"@),
        category_named("测试"@) == Some("测试"@),
        category_named("其他"@) == Some("其他"@),
        category_named("other"@) == Some("其他"@),
{
    reveal_strlit("bug修复");
    assert("bug修复"@.len() == 5 && "bug修复"@[0] == 'b' && "bug修复"@[1] == 'u' && "bug修复"@[2] == 'g' && "bug修复"@[3] == '修' && "bug修复"@[4] == '复');
    reveal_strlit("bug");
    assert("bug"@.len() == 3 && "bug"@[0] == 'b' && "bug"@[1] == 'u' && "bug"@[2] == 'g');
    reveal_strlit("修复");
    assert("修复"@.len() == 2 && "修复"@[0] == '修' && "修复"@[1] == '复');
    reveal_strlit("修补");
    assert("修补"@.len() == 2 && "修补"@[0] == '修' && "修补"@[1] == '补');
    reveal_strlit("翻译");
    assert("翻译"@.len() == 2 && "翻译"@[0] == '翻' && "翻译"@[1] == '译');
    reveal_strlit("translation");
    assert("translation"@.len() == 11 && "translation"@[0] == 't' && "translation"@[1] == 'r' && "translation"@[2] == 'a' && "translation"@[3] == 'n' && "translation"@[4] == 's' && "translation"@[5] == 'l' && "translation"@[6] == 'a' && "translation"@[7] == 't' && "translation"@[8] == 'i' && "translation"@[9] == 'o' && "translation"@[10] == 'n');
    reveal_strlit("translate");
    assert("translate"@.len() == 9 && "translate"@[0] == 't' && "translate"@[1] == 'r' && "translate"@[2] == 'a' && "translate"@[3] == 'n' && "translate"@[4] == 's' && "translate"@[5] == 'l' && "translate"@[6] == 'a' && "translate"@[7] == 't' && "translate"@[8] == 'e');
    reveal_strlit("功能增强");
    assert("功能增强"@.len() == 4 && "功能增强"@[0] == '功' && "功能增强"@[1] == '能' && "功能增强"@[2] == '增' && "功能增强"@[3] == '强');
    reveal_strlit("功能");
    assert("功能"@.len() == 2 && "功能"@[0] == '功' && "功能"@[1] == '能');
    reveal_strlit("feature");
    assert("feature"@.len() == 7 && "feature"@[0] == 'f' && "feature"@[1] == 'e' && "feature"@[2] == 'a' && "feature"@[3] == 't' && "feature"@[4] == 'u' && "feature"@[5] == 'r' && "feature"@[6] == 'e');
    reveal_strlit("性能优化");
    assert("性能优化"@.len() == 4 && "性能优化"@[0] == '性' && "性能优化"@[1] == '能' && "性能优化"@[2] == '优' && "性能优化"@[3] == '化');
    reveal_strlit("性能");
    assert("性能"@.len() == 2 && "性能"@[0] == '性' && "性能"@[1] == '能');
    reveal_strlit("优化");
    assert("优化"@.len() == 2 && "优化"@[0] == '优' && "优化"@[1] == '化');
    reveal_strlit("安全修复");
    assert("安全修复"@.len() == 4 && "安全修复"@[0] == '安' && "安全修复"@[1] == '全' && "安全修复"@[2] == '修' && "安全修复"@[3] == '复');
    reveal_strlit("安全");
    assert("安全"@.len() == 2 && "安全"@[0] == '安' && "安全"@[1] == '全');
    reveal_strlit("cve");
    assert("cve"@.len() == 3 && "cve"@[0] == 'c' && "cve"@[1] == 'v' && "cve"@[2] == 'e');
    reveal_strlit("vuln");
    assert("vuln"@.len() == 4 && "vuln"@[0] == 'v' && "vuln"@[1] == 'u' && "vuln"@[2] == 'l' && "vuln"@[3] == 'n');
    reveal_strlit("构建");
    assert("构建"@.len() == 2 && "构建"@[0] == '构' && "构建"@[1] == '建');
    reveal_strlit("ci");
    assert("ci"@.len() == 2 && "ci"@[0] == 'c' && "ci"@[1] == 'i');
    reveal_strlit("构建/ci");
    assert("构建/ci"@.len() == 5 && "构建/ci"@[0] == '构' && "构建/ci"@[1] == '建' && "构建/ci"@[2] == '/' && "构建/ci"@[3] == 'c' && "构建/ci"@[4] == 'i');
    reveal_strlit("build");
    assert("build"@.len() == 5 && "build"@[0] == 'b' && "build"@[1] == 'u' && "build"@[2] == 'i' && "build"@[3] == 'l' && "build"@[4] == 'd');
    reveal_strlit("配置变更");
    assert("配置变更"@.len() == 4 && "配置变更"@[0] == '配' && "配置变更"@[1] == '置' && "配置变更"@[2] == '变' && "配置变更"@[3] == '更');
    reveal_strlit("配置");
    assert("配置"@.len() == 2 && "配置"@[0] == '配' && "配置"@[1] == '置');
    reveal_strlit("config");
    assert("config"@.len() == 6 && "config"@[0] == 'c' && "config"@[1] == 'o' && "config"@[2] == 'n' && "config"@[3] == 'f' && "config"@[4] == 'i' && "config"@[5] == 'g');
    reveal_strlit("兼容性");
    assert("兼容性"@.len() == 3 && "兼容性"@[0] == '兼' && "兼容性"@[1] == '容' && "兼容性"@[2] == '性');
    reveal_strlit("兼容");
    assert("兼容"@.len() == 2 && "兼容"@[0] == '兼' && "兼容"@[1] == '容');
    reveal_strlit("compat");
    assert("compat"@.len() == 6 && "compat"@[0] == 'c' && "compat"@[1] == 'o' && "compat"@[2] == 'm' && "compat"@[3] == 'p' && "compat"@[4] == 'a' && "compat"@[5] == 't');
    reveal_strlit("文档变更");
    assert("文档变更"@.len() == 4 && "文档变更"@[0] == '文' && "文档变更"@[1] == '档' && "文档变更"@[2] == '变' && "文档变更"@[3] == '更');
    reveal_strlit("文档");
    assert("文档"@.len() == 2 && "文档"@[0] == '文' && "文档"@[1] == '档');
    reveal_strlit("重构");
    assert("重构"@.len() == 2 && "重构"@[0] == '重' && "重构"@[1] == '构');
    reveal_strlit("refactor");
    assert("refactor"@.len() == 8 && "refactor"@[0] == 'r' && "refactor"@[1] == 'e' && "refactor"@[2] == 'f' && "refactor"@[3] == 'a' && "refactor"@[4] == 'c' && "refactor"@[5] == 't' && "refactor"@[6] == 'o' && "refactor"@[7] == 'r');
    reveal_strlit("测试");
    assert("测试"@.len() == 2 && "测试"@[0] == '测' && "测试"@[1] == '试');
    reveal_strlit("其他");
    assert("其他"@.len() == 2 && "其他"@[0] == '其' && "其他"@[1] == '他');
    reveal_strlit("other");
    assert("other"@.len() == 5 && "other"@[0] == 'o' && "other"@[1] == 't' && "other"@[2] == 'h' && "other"@[3] == 'e' && "other"@[4] == 'r');
    reveal_strlit("构建/CI");
    assert("构建/CI"@.len() == 5 && "构建/CI"@[0] == '构' && "构建/CI"@[1] == '建' && "构建/CI"@[2] == '/' && "构建/CI"@[3] == 'C' && "构建/CI"@[4] == 'I');
}

/// The first line of `analysis`, trimmed and lowercased, is `label`, alone
/// or after `分类：`, `分类:` or `category:`.
pub open spec fn declares_label(analysis: Seq<char>, label: Seq<char>) -> bool {
    &&& lines(analysis).len() > 0
    &&& {
        let t = lower(trim(lines(analysis)[0]));
        ||| t == label
        ||| t == "分类："@ + label
        ||| t == "分类:"@ + label
        ||| t == "category:"@ + label
    }
}

/// A declaration of a label that names `cat` declares `cat`.
proof fn lemma_label_form(analysis: Seq<char>, label: Seq<char>, cat: Seq<char>)
    requires
        category_named(label) == Some(cat),
        label.len() > 0,
        !is_white(label[0]),
        !is_white(label.last()),
        !starts(label, "分类："@),
        !starts(label, "分类:"@),
        !starts(label, "category:"@),
        declares_label(analysis, label),
    ensures
        declared_category(analysis) == Some(cat),
{
    reveal_strlit("分类：");
    reveal_strlit("分类:");
    reveal_strlit("category:");
    let t = lower(trim(lines(analysis)[0]));
    assert(trim_start(label) == label);
    assert(trim_end(label) == label);
    let h1 = "分类："@;
    let h2 = "分类:"@;
    let h3 = "category:"@;
    if t == label {
        assert(declared_label(t) == label);
    } else if t == h1 + label {
        assert(t.subrange(0, 3) =~= h1);
        assert(t.skip(3) =~= label);
        assert(declared_label(t) == label);
    } else if t == h2 + label {
        assert(t[2] == h2[2]);
        assert(t.subrange(0, 3)[2] != h1[2]);
        assert(!starts(t, h1));
        assert(t.subrange(0, 3) =~= h2);
        assert(t.skip(3) =~= label);
        assert(declared_label(t) == label);
    } else {
        assert(t == h3 + label);
        assert(t[0] == 'c');
        assert(t.subrange(0, 3)[0] == 'c');
        assert(!starts(t, h1));
        assert(!starts(t, h2));
        assert(t.subrange(0, 9) =~= h3);
        assert(t.skip(9) =~= label);
        assert(declared_label(t) == label);
    }
}

/// Every label that a declaration may use names its category: an analysis
/// whose first line, trimmed and lowercased, is one of these labels, alone
/// or after `分类：`, `分类:` or `category:`, is declared to be of that
/// label's category.
#[verifier::spinoff_prover]
#[verifier::rlimit(50)]
pub proof fn lemma_declared_labels(analysis: Seq<char>)
    ensures
        declares_label(analysis, "bug修复"@) ==> declared_category(analysis) == Some("bug修复"@),
        declares_label(analysis, "bug"@) ==> declared_category(analysis) == Some("bug修复"@),
        declares_label(analysis, "修复"@) ==> declared_category(analysis) == Some("bug修复"@),
        declares_label(analysis, "修补"@) ==> declared_category(analysis) == Some("bug修复"@),
        declares_label(analysis, "翻译"@) ==> declared_category(analysis) == Some("功能增强"@),
        declares_label(analysis, "translation"@) ==> declared_category(analysis) == Some("功能增强"@),
        declares_label(analysis, "translate"@) ==> declared_category(analysis) == Some("功能增强"@),
        declares_label(analysis, "功能增强"@) ==> declared_category(analysis) == Some("功能增强"@),
        declares_label(analysis, "功能"@) ==> declared_category(analysis) == Some("功能增强"@),
        declares_label(analysis, "feature"@) ==> declared_category(analysis) == Some("功能增强"@),
        declares_label(analysis, "性能优化"@) ==> declared_category(analysis) == Some("性能优化"@),
        declares_label(analysis, "性能"@) ==> declared_category(analysis) == Some("性能优化"@),
        declares_label(analysis, "优化"@) ==> declared_category(analysis) == Some("性能优化"@),
        declares_label(analysis, "安全修复"@) ==> declared_category(analysis) == Some("安全修复"@),
        declares_label(analysis, "安全"@) ==> declared_category(analysis) == Some("安全修复"@),
        declares_label(analysis, "cve"@) ==> declared_category(analysis) == Some("安全修复"@),
        declares_label(analysis, "vuln"@) ==> declared_category(analysis) == Some("安全修复"@),
        declares_label(analysis, "构建"@) ==> declared_category(analysis) == Some("构建/CI"@),
        declares_label(analysis, "ci"@) ==> declared_category(analysis) == Some("构建/CI"@),
        declares_label(analysis, "构建/ci"@) ==> declared_category(analysis) == Some("构建/CI"@),
        declares_label(analysis, "build"@) ==> declared_category(analysis) == Some("构建/CI"@),
        declares_label(analysis, "配置变更"@) ==> declared_category(analysis) == Some("配置变更"@),
        declares_label(analysis, "配置"@) ==> declared_category(analysis) == Some("配置变更"@),
        declares_label(analysis, "config"@) ==> declared_category(analysis) == Some("配置变更"@),
        declares_label(analysis, "兼容性"@) ==> declared_category(analysis) == Some("兼容性"@),
        declares_label(analysis, "兼容"@) ==> declared_category(analysis) == Some("兼容性"@),
        declares_label(analysis, "compat"@) ==> declared_category(analysis) == Some("兼容性"@),
        declares_label(analysis, "文档变更"@) ==> declared_category(analysis) == Some("文档变更"@),
        declares_label(analysis, "文档"@) ==> declared_category(analysis) == Some("文档变更"@),
        declares_label(analysis, "重构"@) ==> declared_category(analysis) == Some("重构"@),
        declares_label(analysis, "refactor"@) ==> declared_category(analysis) == Some("重构"@),
        declares_label(analysis, "测试"@) ==> declared_category(analysis) == Some("测试"@),
        declares_label(analysis, "其他"@) ==> declared_category(analysis) == Some("其他"@),
        declares_label(analysis, "other"@) ==> declared_category(analysis) == Some("其他"@),
{
    lemma_label_table();
    reveal_strlit("分类：");
    reveal_strlit("分类:");
    reveal_strlit("category:");
    if declares_label(analysis, "bug修复"@) {
        reveal_strlit("bug修复");
        lemma_not_starts("bug修复"@, "分类："@);
        lemma_not_starts("bug修复"@, "分类:"@);
        lemma_not_starts("bug修复"@, "category:"@);
        lemma_label_form(analysis, "bug修复"@, "bug修复"@);
    }
    if declares_label(analysis, "bug"@) {
        reveal_strlit("bug");
        lemma_not_starts("bug"@, "分类："@);
        lemma_not_starts("bug"@, "分类:"@);
        lemma_not_starts("bug"@, "category:"@);
        lemma_label_form(analysis, "bug"@, "bug修复"@);
    }
    if declares_label(analysis, "修复"@) {
        reveal_strlit("修复");
        lemma_not_starts("修复"@, "分类："@);
        lemma_not_starts("修复"@, "分类:"@);
        lemma_not_starts("修复"@, "category:"@);
        lemma_label_form(analysis, "修复"@, "bug修复"@);
    }
    if declares_label(analysis, "修补"@) {
        reveal_strlit("修补");
        lemma_not_starts("修补"@, "分类："@);
        lemma_not_starts("修补"@, "分类:"@);
        lemma_not_starts("修补"@, "category:"@);
        lemma_label_form(analysis, "修补"@, "bug修复"@);
    }
    if declares_label(analysis, "翻译"@) {
        reveal_strlit("翻译");
        lemma_not_starts("翻译"@, "分类："@);
        lemma_not_starts("翻译"@, "分类:"@);
        lemma_not_starts("翻译"@, "category:"@);
        lemma_label_form(analysis, "翻译"@, "功能增强"@);
    }
    if declares_label(analysis, "translation"@) {
        reveal_strlit("translation");
        lemma_not_starts("translation"@, "分类："@);
        lemma_not_starts("translation"@, "分类:"@);
        lemma_not_starts("translation"@, "category:"@);
        lemma_label_form(analysis, "translation"@, "功能增强"@);
    }
    if declares_label(analysis, "translate"@) {
        reveal_strlit("translate");
        lemma_not_starts("translate"@, "分类："@);
        lemma_not_starts("translate"@, "分类:"@);
        lemma_not_starts("translate"@, "category:"@);
        lemma_label_form(analysis, "translate"@, "功能增强"@);
    }
    if declares_label(analysis, "功能增强"@) {
        reveal_strlit("功能增强");
        lemma_not_starts("功能增强"@, "分类："@);
        lemma_not_starts("功能增强"@, "分类:"@);
        lemma_not_starts("功能增强"@, "category:"@);
        lemma_label_form(analysis, "功能增强"@, "功能增强"@);
    }
    if declares_label(analysis, "功能"@) {
        reveal_strlit("功能");
        lemma_not_starts("功能"@, "分类："@);
        lemma_not_starts("功能"@, "分类:"@);
        lemma_not_starts("功能"@, "category:"@);
        lemma_label_form(analysis, "功能"@, "功能增强"@);
    }
    if declares_label(analysis, "feature"@) {
        reveal_strlit("feature");
        lemma_not_starts("feature"@, "分类："@);
        lemma_not_starts("feature"@, "分类:"@);
        lemma_not_starts("feature"@, "category:"@);
        lemma_label_form(analysis, "feature"@, "功能增强"@);
    }
    if declares_label(analysis, "性能优化"@) {
        reveal_strlit("性能优化");
        lemma_not_starts("性能优化"@, "分类："@);
        lemma_not_starts("性能优化"@, "分类:"@);
        lemma_not_starts("性能优化"@, "category:"@);
        lemma_label_form(analysis, "性能优化"@, "性能优化"@);
    }
    if declares_label(analysis, "性能"@) {
        reveal_strlit("性能");
        lemma_not_starts("性能"@, "分类："@);
        lemma_not_starts("性能"@, "分类:"@);
        lemma_not_starts("性能"@, "category:"@);
        lemma_label_form(analysis, "性能"@, "性能优化"@);
    }
    if declares_label(analysis, "优化"@) {
        reveal_strlit("优化");
        lemma_not_starts("优化"@, "分类："@);
        lemma_not_starts("优化"@, "分类:"@);
        lemma_not_starts("优化"@, "category:"@);
        lemma_label_form(analysis, "优化"@, "性能优化"@);
    }
    if declares_label(analysis, "安全修复"@) {
        reveal_strlit("安全修复");
        lemma_not_starts("安全修复"@, "分类："@);
        lemma_not_starts("安全修复"@, "分类:"@);
        lemma_not_starts("安全修复"@, "category:"@);
        lemma_label_form(analysis, "安全修复"@, "安全修复"@);
    }
    if declares_label(analysis, "安全"@) {
        reveal_strlit("安全");
        lemma_not_starts("安全"@, "分类："@);
        lemma_not_starts("安全"@, "分类:"@);
        lemma_not_starts("安全"@, "category:"@);
        lemma_label_form(analysis, "安全"@, "安全修复"@);
    }
    if declares_label(analysis, "cve"@) {
        reveal_strlit("cve");
        lemma_not_starts("cve"@, "分类："@);
        lemma_not_starts("cve"@, "分类:"@);
        lemma_label_form(analysis, "cve"@, "安全修复"@);
    }
    if declares_label(analysis, "vuln"@) {
        reveal_strlit("vuln");
        lemma_not_starts("vuln"@, "分类："@);
        lemma_not_starts("vuln"@, "分类:"@);
        lemma_not_starts("vuln"@, "category:"@);
        lemma_label_form(analysis, "vuln"@, "安全修复"@);
    }
    if declares_label(analysis, "构建"@) {
        reveal_strlit("构建");
        lemma_not_starts("构建"@, "分类："@);
        lemma_not_starts("构建"@, "分类:"@);
        lemma_not_starts("构建"@, "category:"@);
        lemma_label_form(analysis, "构建"@, "构建/CI"@);
    }
    if declares_label(analysis, "ci"@) {
        reveal_strlit("ci");
        lemma_not_starts("ci"@, "分类："@);
        lemma_not_starts("ci"@, "分类:"@);
        lemma_label_form(analysis, "ci"@, "构建/CI"@);
    }
    if declares_label(analysis, "构建/ci"@) {
        reveal_strlit("构建/ci");
        lemma_not_starts("构建/ci"@, "分类："@);
        lemma_not_starts("构建/ci"@, "分类:"@);
        lemma_not_starts("构建/ci"@, "category:"@);
        lemma_label_form(analysis, "构建/ci"@, "构建/CI"@);
    }
    if declares_label(analysis, "build"@) {
        reveal_strlit("build");
        lemma_not_starts("build"@, "分类："@);
        lemma_not_starts("build"@, "分类:"@);
        lemma_not_starts("build"@, "category:"@);
        lemma_label_form(analysis, "build"@, "构建/CI"@);
    }
    if declares_label(analysis, "配置变更"@) {
        reveal_strlit("配置变更");
        lemma_not_starts("配置变更"@, "分类："@);
        lemma_not_starts("配置变更"@, "分类:"@);
        lemma_not_starts("配置变更"@, "category:"@);
        lemma_label_form(analysis, "配置变更"@, "配置变更"@);
    }
    if declares_label(analysis, "配置"@) {
        reveal_strlit("配置");
        lemma_not_starts("配置"@, "分类："@);
        lemma_not_starts("配置"@, "分类:"@);
        lemma_not_starts("配置"@, "category:"@);
        lemma_label_form(analysis, "配置"@, "配置变更"@);
    }
    if declares_label(analysis, "config"@) {
        reveal_strlit("config");
        lemma_not_starts("config"@, "分类："@);
        lemma_not_starts("config"@, "分类:"@);
        lemma_label_form(analysis, "config"@, "配置变更"@);
    }
    if declares_label(analysis, "兼容性"@) {
        reveal_strlit("兼容性");
        lemma_not_starts("兼容性"@, "分类："@);
        lemma_not_starts("兼容性"@, "分类:"@);
        lemma_not_starts("兼容性"@, "category:"@);
        lemma_label_form(analysis, "兼容性"@, "兼容性"@);
    }
    if declares_label(analysis, "兼容"@) {
        reveal_strlit("兼容");
        lemma_not_starts("兼容"@, "分类："@);
        lemma_not_starts("兼容"@, "分类:"@);
        lemma_not_starts("兼容"@, "category:"@);
        lemma_label_form(analysis, "兼容"@, "兼容性"@);
    }
    if declares_label(analysis, "compat"@) {
        reveal_strlit("compat");
        lemma_not_starts("compat"@, "分类："@);
        lemma_not_starts("compat"@, "分类:"@);
        lemma_label_form(analysis, "compat"@, "兼容性"@);
    }
    if declares_label(analysis, "文档变更"@) {
        reveal_strlit("文档变更");
        lemma_not_starts("文档变更"@, "分类："@);
        lemma_not_starts("文档变更"@, "分类:"@);
        lemma_not_starts("文档变更"@, "category:"@);
        lemma_label_form(analysis, "文档变更"@, "文档变更"@);
    }
    if declares_label(analysis, "文档"@) {
        reveal_strlit("文档");
        lemma_not_starts("文档"@, "分类："@);
        lemma_not_starts("文档"@, "分类:"@);
        lemma_not_starts("文档"@, "category:"@);
        lemma_label_form(analysis, "文档"@, "文档变更"@);
    }
    if declares_label(analysis, "重构"@) {
        reveal_strlit("重构");
        lemma_not_starts("重构"@, "分类："@);
        lemma_not_starts("重构"@, "分类:"@);
        lemma_not_starts("重构"@, "category:"@);
        lemma_label_form(analysis, "重构"@, "重构"@);
    }
    if declares_label(analysis, "refactor"@) {
        reveal_strlit("refactor");
        lemma_not_starts("refactor"@, "分类："@);
        lemma_not_starts("refactor"@, "分类:"@);
        lemma_not_starts("refactor"@, "category:"@);
        lemma_label_form(analysis, "refactor"@, "重构"@);
    }
    if declares_label(analysis, "测试"@) {
        reveal_strlit("测试");
        lemma_not_starts("测试"@, "分类："@);
        lemma_not_starts("测试"@, "分类:"@);
        lemma_not_starts("测试"@, "category:"@);
        lemma_label_form(analysis, "测试"@, "测试"@);
    }
    if declares_label(analysis, "其他"@) {
        reveal_strlit("其他");
        lemma_not_starts("其他"@, "分类："@);
        lemma_not_starts("其他"@, "分类:"@);
        lemma_not_starts("其他"@, "category:"@);
        lemma_label_form(analysis, "其他"@, "其他"@);
    }
    if declares_label(analysis, "other"@) {
        reveal_strlit("other");
        lemma_not_starts("other"@, "分类："@);
        lemma_not_starts("other"@, "分类:"@);
        lemma_not_starts("other"@, "category:"@);
        lemma_label_form(analysis, "other"@, "其他"@);
    }
}

} // verus!

//! What a report entry takes from a commit's diff and from a model's
//! analysis of it: whether code changed, the one-line summary and impact,
//! the merge advice, and the text of the detailed entry.
use vstd::prelude::*;
use crate::text::{
    contains_seq, starts, strip_all, trim, trim_start, lines, take_chars, delimits, lower, to_lowercase,
    chars_of, sub_vec, line_bounds, trim_vec, trim_start_vec, contains_lit, starts_with_lit,
    strip_all_lit, equals_lit, string_from_chars,
};
use vstd::string::StringExecFns;

verus! {

/// A diff line (without its indentation) that carries no code: empty, or a
/// header line of `git show`.
pub open spec fn is_meta_line(t: Seq<char>) -> bool {
    ||| t.len() == 0
    ||| starts(t, "diff --git"@)
    ||| starts(t, "index "@)
    ||| starts(t, "--- "@)
    ||| starts(t, "+++ "@)
    ||| starts(t, "@@"@)
    ||| starts(t, "commit "@)
    ||| starts(t, "Author:"@)
    ||| starts(t, "Date:"@)
}

/// A diff line (without its indentation) that adds or removes code.
pub open spec fn is_change_line(t: Seq<char>) -> bool {
    &&& (starts(t, "+"@) || starts(t, "-"@))
    &&& !starts(t, "+++ "@)
    &&& !starts(t, "--- "@)
}

/// A diff changes no code: all its lines are header lines, or none of them
/// adds or removes a line.
pub open spec fn no_code_change(diff: Seq<char>) -> bool {
    let ls = lines(diff);
    ||| forall|i: int| 0 <= i < ls.len() ==> is_meta_line(trim_start(#[trigger] ls[i]))
    ||| !exists|i: int| 0 <= i < ls.len() && is_change_line(trim_start(#[trigger] ls[i]))
}

fn meta_line(t: &Vec<char>) -> (r: bool)
    ensures
        r == is_meta_line(t@),
{
    t.len() == 0 || starts_with_lit(t, "diff --git") || starts_with_lit(t, "index ")
        || starts_with_lit(t, "--- ") || starts_with_lit(t, "+++ ") || starts_with_lit(t, "@@")
        || starts_with_lit(t, "commit ") || starts_with_lit(t, "Author:") || starts_with_lit(
        t,
        "Date:",
    )
}

fn change_line(t: &Vec<char>) -> (r: bool)
    ensures
        r == is_change_line(t@),
{
    (starts_with_lit(t, "+") || starts_with_lit(t, "-")) && !starts_with_lit(t, "+++ ")
        && !starts_with_lit(t, "--- ")
}

/// Whether a commit's diff changes no code: every line is a header line,
/// or no line adds or removes code.
pub fn is_no_code_change(diff: &str) -> (r: bool)
    ensures
        r == no_code_change(diff@),
{
    let v = chars_of(diff);
    let bounds = line_bounds(&v);
    let ghost ls = lines(v@);
    let mut all_meta = true;
    let mut any_change = false;
    let mut k: usize = 0;
    while k < bounds.len()
        invariant
            k <= bounds.len(),
            ls == lines(v@),
            delimits(v@, bounds@, ls),
            all_meta == (forall|i: int| 0 <= i < k ==> is_meta_line(trim_start(#[trigger] ls[i]))),
            any_change == (exists|i: int|
                0 <= i < k && is_change_line(trim_start(#[trigger] ls[i]))),
        decreases bounds.len() - k,
    {
        let (lo, hi) = bounds[k];
        assert(bounds@[k as int] == (lo, hi));
        let line = sub_vec(&v, lo, hi);
        assert(line@ == ls[k as int]);
        let t = trim_start_vec(&line);
        let m = meta_line(&t);
        let c = change_line(&t);
        proof {
            if all_meta && m {
                assert forall|i: int| 0 <= i < k + 1 implies is_meta_line(
                    trim_start(#[trigger] ls[i]),
                ) by {}
            }
            if !m {
                assert(!is_meta_line(trim_start(ls[k as int])));
            }
            if c {
                assert(is_change_line(trim_start(ls[k as int])));
            }
            if !any_change && !c {
                assert forall|i: int| 0 <= i < k + 1 implies !is_change_line(
                    trim_start(#[trigger] ls[i]),
                ) by {}
            }
        }
        all_meta = all_meta && m;
        any_change = any_change || c;
        k += 1;
    }
    all_meta || !any_change
}

/// The index of the first line of `ls`, from `j` on, that is not blank once
/// trimmed; `ls.len()` when there is none.
pub open spec fn first_nonblank_from(ls: Seq<Seq<char>>, j: int) -> int
    decreases ls.len() - j,
{
    if j >= ls.len() {
        ls.len() as int
    } else if trim(ls[j]).len() > 0 {
        j
    } else {
        first_nonblank_from(ls, j + 1)
    }
}

/// The one-line summary and the impact line that a report entry takes from
/// an analysis, whose first line holds the category. For a commit without
/// code changes the summary is the first 20 characters of the next non-blank
/// line (or a fixed text when there is none) and the impact the line after
/// it; otherwise they are the second and the third line. A blank summary is
/// replaced by the impact.
pub open spec fn summary_and_impact(analysis: Seq<char>, no_change: bool) -> (Seq<char>, Seq<char>) {
    let ls = lines(analysis);
    let (summary, impact) = if no_change {
        let j = first_nonblank_from(ls, 1);
        if j < ls.len() {
            (
                take_chars(trim(ls[j]), 20),
                if j + 1 < ls.len() {
                    trim(ls[j + 1])
                } else {
                    seq![]
                },
            )
        } else {
            ("不涉及核心代码修改"@, seq![])
        }
    } else {
        (
            if 1 < ls.len() {
                trim(ls[1])
            } else {
                seq![]
            },
            if 2 < ls.len() {
                trim(ls[2])
            } else {
                seq![]
            },
        )
    };
    (
        if summary.len() == 0 {
            impact
        } else {
            summary
        },
        impact,
    )
}

/// The trimmed line `k` of `v`, delimited by `bounds`.
fn trimmed_line(v: &Vec<char>, bounds: &Vec<(usize, usize)>, k: usize, Ghost(ls): Ghost<
    Seq<Seq<char>>,
>) -> (r: Vec<char>)
    requires
        delimits(v@, bounds@, ls),
        k < bounds.len(),
    ensures
        r@ == trim(ls[k as int]),
{
    let (lo, hi) = bounds[k];
    assert(bounds@[k as int] == (lo, hi));
    let line = sub_vec(v, lo, hi);
    assert(line@ == ls[k as int]);
    trim_vec(&line)
}

/// The summary for the report's table and the impact line of a commit's
/// analysis (the first line, the category, is skipped).
pub fn summary_and_impact_of(analysis: &str, no_change: bool) -> (r: (String, String))
    ensures
        (r.0@, r.1@) == summary_and_impact(analysis@, no_change),
{
    let v = chars_of(analysis);
    let bounds = line_bounds(&v);
    let ghost ls = lines(v@);
    let n = bounds.len();
    let mut summary: Vec<char> = Vec::new();
    let mut impact: Vec<char> = Vec::new();
    if no_change {
        let mut j: usize = 1;
        while j < n && trimmed_line(&v, &bounds, j, Ghost(ls)).len() == 0
            invariant
                1 <= j,
                n == bounds.len(),
                delimits(v@, bounds@, ls),
                first_nonblank_from(ls, 1) == first_nonblank_from(ls, j as int),
            decreases n - j,
        {
            j += 1;
        }
        if j < n {
            let t = trimmed_line(&v, &bounds, j, Ghost(ls));
            if t.len() <= 20 {
                summary = t;
            } else {
                summary = sub_vec(&t, 0, 20);
            }
            if j + 1 < n {
                impact = trimmed_line(&v, &bounds, j + 1, Ghost(ls));
            }
        } else {
            summary = chars_of("不涉及核心代码修改");
        }
    } else {
        if 1 < n {
            summary = trimmed_line(&v, &bounds, 1, Ghost(ls));
        }
        if 2 < n {
            impact = trimmed_line(&v, &bounds, 2, Ghost(ls));
        }
    }
    assert(Seq::<char>::empty() =~= seq![]);
    let shown = if summary.len() == 0 {
        string_from_chars(&impact)
    } else {
        string_from_chars(&summary)
    };
    (shown, string_from_chars(&impact))
}

/// A line (without its indentation) that marks the model's merge advice.
pub open spec fn is_advice_line(t: Seq<char>) -> bool {
    starts(t, "建议："@) || starts(t, "建议:"@) || starts(t, "【建议】"@)
}

/// The advice that a trimmed line states after an advice marker, if it
/// states any.
pub open spec fn marked_advice(t: Seq<char>) -> Option<Seq<char>> {
    if starts(t, "建议："@) || starts(t, "建议:"@) {
        let s = trim(strip_all(strip_all(t, "建议："@), "建议:"@));
        if s.len() > 0 {
            Some(s)
        } else {
            None
        }
    } else if starts(t, "【建议】"@) {
        let s = trim(strip_all(t, "【建议】"@));
        if s.len() > 0 {
            Some(s)
        } else {
            None
        }
    } else {
        None
    }
}

/// The first advice stated after a marker in the lines of `ls` from `j` on.
pub open spec fn first_marked_advice(ls: Seq<Seq<char>>, j: int) -> Option<Seq<char>>
    decreases ls.len() - j,
{
    if j < 0 || j >= ls.len() {
        None
    } else {
        match marked_advice(trim(ls[j])) {
            Some(s) => Some(s),
            None => first_marked_advice(ls, j + 1),
        }
    }
}

/// Some line of `ls` contains `kw`.
pub open spec fn some_line_has(ls: Seq<Seq<char>>, kw: Seq<char>) -> bool {
    exists|i: int| 0 <= i < ls.len() && contains_seq(trim(#[trigger] ls[i]), kw)
}

/// The strongest advice keyword that some line of `ls` contains: `立刻合入`
/// before `建议合入` before `人工复核` before `不影响`.
pub open spec fn keyword_advice(ls: Seq<Seq<char>>) -> Option<Seq<char>> {
    if some_line_has(ls, "立刻合入"@) {
        Some("立刻合入"@)
    } else if some_line_has(ls, "建议合入"@) {
        Some("建议合入"@)
    } else if some_line_has(ls, "人工复核"@) {
        Some("人工复核"@)
    } else if some_line_has(ls, "不影响"@) {
        Some("不影响"@)
    } else {
        None
    }
}

/// No marked advice is found in lines that carry no marker.
proof fn lemma_no_marked_advice(ls: Seq<Seq<char>>, j: int)
    requires
        forall|i: int|
            0 <= i < ls.len() ==> !starts(trim(#[trigger] ls[i]), "建议："@) && !starts(
                trim(ls[i]),
                "建议:"@,
            ) && !starts(trim(ls[i]), "【建议】"@),
    ensures
        first_marked_advice(ls, j) is None,
    decreases ls.len() - j,
{
    if 0 <= j < ls.len() {
        lemma_no_marked_advice(ls, j + 1);
    }
}

/// When no line of an analysis begins (after its indentation) with
/// `建议：`, `建议:` or `【建议】`, the advice it states is the strongest
/// keyword some line contains, in the order `立刻合入`, `建议合入`,
/// `人工复核`, `不影响`, whatever else the lines hold, and there is none
/// when no line contains one; a commit of any category but `bug修复`,
/// `安全修复` and `功能增强` then takes that advice, or `人工复核`.
pub proof fn lemma_unmarked_advice(
    analysis: Seq<char>,
    category: Seq<char>,
    subject: Seq<char>,
    no_change: bool,
)
    requires
        forall|i: int|
            0 <= i < lines(analysis).len() ==> !starts(trim(#[trigger] lines(analysis)[i]), "建议："@)
                && !starts(trim(lines(analysis)[i]), "建议:"@) && !starts(
                trim(lines(analysis)[i]),
                "【建议】"@,
            ),
    ensures
        some_line_has(lines(analysis), "立刻合入"@) ==> stated_advice(analysis) == Some("立刻合入"@),
        !some_line_has(lines(analysis), "立刻合入"@) && some_line_has(lines(analysis), "建议合入"@)
            ==> stated_advice(analysis) == Some("建议合入"@),
        !some_line_has(lines(analysis), "立刻合入"@) && !some_line_has(lines(analysis), "建议合入"@)
            && some_line_has(lines(analysis), "人工复核"@) ==> stated_advice(analysis) == Some(
            "人工复核"@,
        ),
        !some_line_has(lines(analysis), "立刻合入"@) && !some_line_has(lines(analysis), "建议合入"@)
            && !some_line_has(lines(analysis), "人工复核"@) && some_line_has(lines(analysis), "不影响"@)
            ==> stated_advice(analysis) == Some("不影响"@),
        !some_line_has(lines(analysis), "立刻合入"@) && !some_line_has(lines(analysis), "建议合入"@)
            && !some_line_has(lines(analysis), "人工复核"@) && !some_line_has(lines(analysis), "不影响"@)
            ==> stated_advice(analysis) is None,
        category != "bug修复"@ && category != "安全修复"@ && category != "功能增强"@ ==> merge_advice(
            category,
            subject,
            no_change,
            analysis,
        ) == match stated_advice(analysis) {
            Some(s) => s,
            None => "人工复核"@,
        },
{
    lemma_no_marked_advice(lines(analysis), 0);
}

/// The merge advice that an analysis states: the first advice written
/// after a marker, or else the strongest advice keyword it contains.
pub open spec fn stated_advice(analysis: Seq<char>) -> Option<Seq<char>> {
    let ls = lines(analysis);
    match first_marked_advice(ls, 0) {
        Some(s) => Some(s),
        None => keyword_advice(ls),
    }
}

fn advice_after_marker(t: &Vec<char>) -> (r: Option<Vec<char>>)
    ensures
        r matches Some(x) ==> marked_advice(t@) == Some(x@),
        r is None ==> marked_advice(t@) is None,
{
    if starts_with_lit(t, "建议：") || starts_with_lit(t, "建议:") {
        let a = strip_all_lit(t, "建议：");
        let b = strip_all_lit(&a, "建议:");
        let s = trim_vec(&b);
        if s.len() > 0 {
            Some(s)
        } else {
            None
        }
    } else if starts_with_lit(t, "【建议】") {
        let a = strip_all_lit(t, "【建议】");
        let s = trim_vec(&a);
        if s.len() > 0 {
            Some(s)
        } else {
            None
        }
    } else {
        None
    }
}

/// Whether some line delimited by `bounds` contains the literal `kw`.
fn some_line_contains(v: &Vec<char>, bounds: &Vec<(usize, usize)>, kw: &str, Ghost(ls): Ghost<
    Seq<Seq<char>>,
>) -> (r: bool)
    requires
        delimits(v@, bounds@, ls),
    ensures
        r == some_line_has(ls, kw@),
{
    let mut k: usize = 0;
    while k < bounds.len()
        invariant
            k <= bounds.len(),
            delimits(v@, bounds@, ls),
            forall|i: int| 0 <= i < k ==> !contains_seq(trim(#[trigger] ls[i]), kw@),
        decreases bounds.len() - k,
    {
        let t = trimmed_line(v, bounds, k, Ghost(ls));
        if contains_lit(&t, kw) {
            return true;
        }
        k += 1;
    }
    false
}

/// The merge advice stated in a model's analysis, if any.
pub fn stated_advice_of(analysis: &str) -> (r: Option<String>)
    ensures
        r matches Some(s) ==> stated_advice(analysis@) == Some(s@),
        r is None ==> stated_advice(analysis@) is None,
{
    let v = chars_of(analysis);
    let bounds = line_bounds(&v);
    let ghost ls = lines(v@);
    let mut k: usize = 0;
    while k < bounds.len()
        invariant
            k <= bounds.len(),
            v@ == analysis@,
            ls == lines(v@),
            delimits(v@, bounds@, ls),
            first_marked_advice(ls, 0) == first_marked_advice(ls, k as int),
        decreases bounds.len() - k,
    {
        let t = trimmed_line(&v, &bounds, k, Ghost(ls));
        match advice_after_marker(&t) {
            Some(s) => {
                return Some(string_from_chars(&s));
            },
            None => {},
        }
        k += 1;
    }
    if some_line_contains(&v, &bounds, "立刻合入", Ghost(ls)) {
        Some(String::from_str("立刻合入"))
    } else if some_line_contains(&v, &bounds, "建议合入", Ghost(ls)) {
        Some(String::from_str("建议合入"))
    } else if some_line_contains(&v, &bounds, "人工复核", Ghost(ls)) {
        Some(String::from_str("人工复核"))
    } else if some_line_contains(&v, &bounds, "不影响", Ghost(ls)) {
        Some(String::from_str("不影响"))
    } else {
        None
    }
}

/// The subject (lowercased) of a commit that only translates or releases.
pub open spec fn is_release_subject(lowered: Seq<char>) -> bool {
    ||| contains_seq(lowered, "翻译"@)
    ||| contains_seq(lowered, "translation"@)
    ||| contains_seq(lowered, "manpage"@)
    ||| contains_seq(lowered, "版本"@)
    ||| contains_seq(lowered, "release"@)
    ||| contains_seq(lowered, "ver"@)
}

/// Whether a lowercased commit subject speaks of a translation or release.
pub fn release_subject(lowered: &str) -> (r: bool)
    ensures
        r == is_release_subject(lowered@),
{
    let s = chars_of(lowered);
    contains_lit(&s, "翻译") || contains_lit(&s, "translation") || contains_lit(&s, "manpage")
        || contains_lit(&s, "版本") || contains_lit(&s, "release") || contains_lit(&s, "ver")
}

/// The merge advice of a report entry: fixed for bug and security fixes; for
/// feature work, to merge translations and releases, no effect when no code
/// changed, and otherwise what the analysis says (`建议合入` before
/// `人工复核`, which is also the default); for any other category, the
/// advice the analysis states, or `人工复核`.
pub open spec fn merge_advice(
    category: Seq<char>,
    subject: Seq<char>,
    no_change: bool,
    analysis: Seq<char>,
) -> Seq<char> {
    if category == "bug修复"@ {
        "立刻合入"@
    } else if category == "安全修复"@ {
        "建议合入"@
    } else if category == "功能增强"@ {
        if is_release_subject(lower(subject)) {
            "建议合入"@
        } else if no_change {
            "不影响"@
        } else if some_line_has(lines(analysis), "建议合入"@) {
            "建议合入"@
        } else {
            "人工复核"@
        }
    } else {
        match stated_advice(analysis) {
            Some(s) => s,
            None => "人工复核"@,
        }
    }
}

/// The merge advice of a commit filed under `category`.
pub fn merge_advice_of(category: &str, subject: &str, no_change: bool, analysis: &str) -> (r:
    String)
    ensures
        r@ == merge_advice(category@, subject@, no_change, analysis@),
{
    let c = chars_of(category);
    if equals_lit(&c, "bug修复") {
        String::from_str("立刻合入")
    } else if equals_lit(&c, "安全修复") {
        String::from_str("建议合入")
    } else if equals_lit(&c, "功能增强") {
        let lowered = to_lowercase(subject);
        if release_subject(lowered.as_str()) {
            String::from_str("建议合入")
        } else if no_change {
            String::from_str("不影响")
        } else {
            let v = chars_of(analysis);
            let bounds = line_bounds(&v);
            if some_line_contains(&v, &bounds, "建议合入", Ghost(lines(v@))) {
                String::from_str("建议合入")
            } else {
                String::from_str("人工复核")
            }
        }
    } else {
        match stated_advice_of(analysis) {
            Some(s) => s,
            None => String::from_str("人工复核"),
        }
    }
}

} // verus!

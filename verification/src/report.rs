//! The parts of the report that follow from the analyses: the detailed
//! entry of a commit and the counts of merge advice in the summary.
use vstd::prelude::*;
use crate::analysis::is_advice_line;
use crate::text::{
    contains_seq, starts, strip_all, trim, trim_start, lines, delimits, chars_of, sub_vec,
    line_bounds, trim_vec, trim_start_vec, contains_lit, starts_with_lit, strip_all_lit,
    equals_lit, string_from_chars,
};
use vstd::string::StringExecFns;

verus! {

/// What a line of the analysis contributes to the detailed entry: nothing
/// when it repeats the one-line summary, a bold title for a `#` heading
/// (nothing for an empty one), and the line itself otherwise.
pub open spec fn detail_line(l: Seq<char>) -> Seq<char> {
    let t = trim_start(l);
    if contains_seq(t, "一句话总结"@) {
        seq![]
    } else if is_advice_line(t) {
        l + "\n"@
    } else if starts(t, "#"@) {
        let title = trim(strip_all(t, "#"@));
        if title.len() > 0 {
            "**"@ + title + "**\n"@
        } else {
            seq![]
        }
    } else {
        l + "\n"@
    }
}

/// A line of the analysis that holds `一句话总结` anywhere after its leading
/// whitespace adds nothing to the detailed entry, even when it also looks
/// like an advice line or a heading.
pub proof fn lemma_summary_lines_dropped(l: Seq<char>)
    requires
        contains_seq(trim_start(l), "一句话总结"@),
    ensures
        detail_line(l) == Seq::<char>::empty(),
{
}

/// What the lines of `ls` from `j` on contribute to the detailed entry.
pub open spec fn detail_text(ls: Seq<Seq<char>>, j: int) -> Seq<char>
    decreases ls.len() - j,
{
    if j < 0 || j >= ls.len() {
        seq![]
    } else {
        detail_line(ls[j]) + detail_text(ls, j + 1)
    }
}

/// A line of `ls` from `j` on that the entry keeps and that gives merge
/// advice.
pub open spec fn advice_in_body(ls: Seq<Seq<char>>, j: int) -> bool {
    exists|i: int|
        j <= i < ls.len() && !contains_seq(trim_start(#[trigger] ls[i]), "一句话总结"@)
            && is_advice_line(trim_start(ls[i]))
}

/// The detailed entry of a commit: its title, the analysis from its fourth
/// line on, a line with the merge advice unless the analysis gives one, and
/// a closing rule.
pub open spec fn detail_entry(title: Seq<char>, analysis: Seq<char>, advice: Seq<char>) -> Seq<
    char,
> {
    let ls = lines(analysis);
    title + detail_text(ls, 3) + (if advice_in_body(ls, 3) {
        seq![]
    } else {
        "回归风险与建议："@ + advice + "\n"@
    }) + "\n---\n\n"@
}

/// What the line `v[lo..hi]` contributes to the detailed entry, and whether
/// it gives merge advice.
fn detail_line_of(v: &Vec<char>, lo: usize, hi: usize) -> (r: (String, bool))
    requires
        lo <= hi <= v.len(),
    ensures
        r.0@ == detail_line(v@.subrange(lo as int, hi as int)),
        r.1 == (!contains_seq(trim_start(v@.subrange(lo as int, hi as int)), "一句话总结"@)
            && is_advice_line(trim_start(v@.subrange(lo as int, hi as int)))),
{
    let line = sub_vec(v, lo, hi);
    let t = trim_start_vec(&line);
    if contains_lit(&t, "一句话总结") {
        (String::new(), false)
    } else if starts_with_lit(&t, "建议：") || starts_with_lit(&t, "建议:") || starts_with_lit(
        &t,
        "【建议】",
    ) {
        let mut s = string_from_chars(&line);
        s.append("\n");
        (s, true)
    } else if starts_with_lit(&t, "#") {
        let stripped = strip_all_lit(&t, "#");
        let title = trim_vec(&stripped);
        if title.len() > 0 {
            let mut s = String::from_str("**");
            let tt = string_from_chars(&title);
            s.append(tt.as_str());
            s.append("**\n");
            (s, false)
        } else {
            (String::new(), false)
        }
    } else {
        let mut s = string_from_chars(&line);
        s.append("\n");
        (s, false)
    }
}

/// The detailed entry of a commit, from its title, its analysis and its
/// merge advice.
pub fn detail_entry_of(title: &str, analysis: &str, advice: &str) -> (r: String)
    ensures
        r@ == detail_entry(title@, analysis@, advice@),
{
    let v = chars_of(analysis);
    let bounds = line_bounds(&v);
    let ghost ls = lines(v@);
    let mut entry = String::from_str(title);
    let mut found = false;
    let mut k: usize = 3;
    while k < bounds.len()
        invariant
            3 <= k,
            k == 3 || k <= bounds.len(),
            v@ == analysis@,
            ls == lines(v@),
            delimits(v@, bounds@, ls),
            title@ + detail_text(ls, 3) == entry@ + detail_text(ls, k as int),
            found == exists|i: int|
                3 <= i < k && !contains_seq(trim_start(#[trigger] ls[i]), "一句话总结"@)
                    && is_advice_line(trim_start(ls[i])),
        decreases bounds.len() - k,
    {
        let (lo, hi) = bounds[k];
        assert(bounds@[k as int] == (lo, hi));
        assert(v@.subrange(lo as int, hi as int) == ls[k as int]);
        let (piece, advice_here) = detail_line_of(&v, lo, hi);
        let ghost before = entry@;
        entry.append(piece.as_str());
        proof {
            assert(detail_text(ls, k as int) == detail_line(ls[k as int]) + detail_text(
                ls,
                k + 1,
            ));
            assert(before + detail_text(ls, k as int) =~= entry@ + detail_text(ls, k + 1));
        }
        found = found || advice_here;
        k += 1;
    }
    proof {
        assert(detail_text(ls, k as int) =~= Seq::<char>::empty());
        assert(k >= ls.len());
        if found {
            let i = choose|i: int|
                3 <= i < k && !contains_seq(trim_start(#[trigger] ls[i]), "一句话总结"@)
                    && is_advice_line(trim_start(ls[i]));
            assert(i < ls.len());
            assert(advice_in_body(ls, 3));
        }
        if advice_in_body(ls, 3) {
            let i = choose|i: int|
                3 <= i < ls.len() && !contains_seq(trim_start(#[trigger] ls[i]), "一句话总结"@)
                    && is_advice_line(trim_start(ls[i]));
            assert(i < k);
        }
    }
    if !found {
        entry.append("回归风险与建议：");
        entry.append(advice);
        entry.append("\n");
    }
    entry.append("\n---\n\n");
    entry
}

/// The counts in the report's summary over `(category, advice)` pairs: how
/// many commits are advised for merging (`建议合入`), and how many for
/// immediate merging (`立刻合入`, and security fixes advised for merging).
pub open spec fn advice_counts(items: Seq<(Seq<char>, Seq<char>)>) -> (int, int)
    decreases items.len(),
{
    if items.len() == 0 {
        (0, 0)
    } else {
        let prev = advice_counts(items.drop_last());
        let (c, s) = items.last();
        (
            prev.0 + if s == "建议合入"@ {
                1int
            } else {
                0int
            },
            prev.1 + if s == "建议合入"@ && c == "安全修复"@ {
                1int
            } else {
                0int
            } + if s == "立刻合入"@ {
                1int
            } else {
                0int
            },
        )
    }
}

/// The views of `(category, advice)` pairs.
pub open spec fn pair_views(items: Seq<(String, String)>) -> Seq<(Seq<char>, Seq<char>)> {
    items.map_values(|p: (String, String)| (p.0@, p.1@))
}

/// Counts never exceed the number of pairs.
proof fn lemma_advice_counts_bounded(items: Seq<(Seq<char>, Seq<char>)>)
    ensures
        0 <= advice_counts(items).0 <= items.len(),
        0 <= advice_counts(items).1 <= items.len(),
    decreases items.len(),
{
    if items.len() > 0 {
        lemma_advice_counts_bounded(items.drop_last());
        reveal_strlit("建议合入");
        reveal_strlit("立刻合入");
        assert("建议合入"@[0] != "立刻合入"@[0]);
    }
}

/// The summary's counts, over `(category, advice)` pairs: every pair
/// advised `建议合入` counts for merging; every pair advised `立刻合入`, of
/// any category, and every `安全修复` pair advised `建议合入` count for
/// immediate merging.
pub proof fn lemma_advice_counts(items: Seq<(Seq<char>, Seq<char>)>)
    ensures
        advice_counts(items).0 == items.filter(|p: (Seq<char>, Seq<char>)| p.1 == "建议合入"@).len(),
        advice_counts(items).1 == items.filter(|p: (Seq<char>, Seq<char>)| p.1 == "立刻合入"@).len()
            + items.filter(
            |p: (Seq<char>, Seq<char>)| p.0 == "安全修复"@ && p.1 == "建议合入"@,
        ).len(),
    decreases items.len(),
{
    reveal_strlit("建议合入");
    reveal_strlit("立刻合入");
    assert("建议合入"@[0] != "立刻合入"@[0]);
    reveal_with_fuel(Seq::<(Seq<char>, Seq<char>)>::filter, 1);
    if items.len() > 0 {
        lemma_advice_counts(items.drop_last());
    }
}

/// Counts the commits advised for merging and those advised for immediate
/// merging, over `(category, advice)` pairs.
pub fn count_advice(items: &Vec<(String, String)>) -> (r: (usize, usize))
    ensures
        (r.0 as int, r.1 as int) == advice_counts(pair_views(items@)),
{
    let ghost all = pair_views(items@);
    let mut suggest: usize = 0;
    let mut instant: usize = 0;
    let mut k: usize = 0;
    assert(all.take(0) =~= Seq::<(Seq<char>, Seq<char>)>::empty());
    while k < items.len()
        invariant
            k <= items.len(),
            all == pair_views(items@),
            (suggest as int, instant as int) == advice_counts(all.take(k as int)),
        decreases items.len() - k,
    {
        let c = chars_of(items[k].0.as_str());
        let s = chars_of(items[k].1.as_str());
        proof {
            assert(all.take(k + 1).drop_last() =~= all.take(k as int));
            assert(all.take(k + 1).last() == (c@, s@));
            lemma_advice_counts_bounded(all.take(k + 1));
        }
        if equals_lit(&s, "建议合入") {
            suggest += 1;
            if equals_lit(&c, "安全修复") {
                instant += 1;
            }
        }
        if equals_lit(&s, "立刻合入") {
            instant += 1;
        }
        k += 1;
    }
    assert(all.take(k as int) =~= all);
    (suggest, instant)
}

} // verus!

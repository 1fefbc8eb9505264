//! The analysed commits grouped by category, the groups kept in the order
//! of their category names (as a `BTreeMap<String, _>` keeps its keys).
use vstd::prelude::*;
use crate::text::{chars_of, same_chars};
use crate::report::pair_views;
use crate::render::{group_views, text_views, count_views};
use vstd::string::StringExecFns;

verus! {

/// `a` comes before `b` in the order of strings: the first differing
/// character decides, and a proper prefix comes first.
pub open spec fn text_before(a: Seq<char>, b: Seq<char>) -> bool
    decreases a.len(),
{
    if a.len() == 0 {
        b.len() > 0
    } else if b.len() == 0 {
        false
    } else if a[0] != b[0] {
        a[0] < b[0]
    } else {
        text_before(a.drop_first(), b.drop_first())
    }
}

/// No text comes before itself.
pub proof fn lemma_text_before_irreflexive(a: Seq<char>)
    ensures
        !text_before(a, a),
    decreases a.len(),
{
    if a.len() > 0 {
        lemma_text_before_irreflexive(a.drop_first());
    }
}

/// The order of texts is transitive.
pub proof fn lemma_text_before_transitive(a: Seq<char>, b: Seq<char>, c: Seq<char>)
    requires
        text_before(a, b),
        text_before(b, c),
    ensures
        text_before(a, c),
    decreases a.len(),
{
    if a.len() > 0 && b.len() > 0 && c.len() > 0 && a[0] == b[0] && b[0] == c[0] {
        lemma_text_before_transitive(a.drop_first(), b.drop_first(), c.drop_first());
    }
}

/// Of two different texts, one comes before the other.
pub proof fn lemma_text_before_total(a: Seq<char>, b: Seq<char>)
    requires
        a != b,
    ensures
        text_before(a, b) || text_before(b, a),
    decreases a.len(),
{
    if a.len() == 0 {
        assert(b.len() > 0) by {
            if b.len() == 0 {
                assert(a =~= b);
            }
        }
    } else if b.len() > 0 && a[0] == b[0] {
        assert(a.drop_first() != b.drop_first()) by {
            if a.drop_first() == b.drop_first() {
                assert(a =~= seq![a[0]] + a.drop_first());
                assert(b =~= seq![b[0]] + b.drop_first());
            }
        }
        lemma_text_before_total(a.drop_first(), b.drop_first());
    }
}

/// Whether `a` comes before `b` in the order of strings.
fn chars_before(a: &Vec<char>, b: &Vec<char>) -> (r: bool)
    ensures
        r == text_before(a@, b@),
{
    let mut i: usize = 0;
    assert(a@.skip(0) =~= a@);
    assert(b@.skip(0) =~= b@);
    while i < a.len() && i < b.len() && a[i] == b[i]
        invariant
            i <= a.len(),
            i <= b.len(),
            text_before(a@, b@) == text_before(a@.skip(i as int), b@.skip(i as int)),
        decreases a.len() - i,
    {
        assert(a@.skip(i as int).drop_first() =~= a@.skip(i + 1));
        assert(b@.skip(i as int).drop_first() =~= b@.skip(i + 1));
        i += 1;
    }
    if i == a.len() {
        i < b.len()
    } else if i == b.len() {
        false
    } else {
        assert(a@.skip(i as int)[0] == a@[i as int]);
        assert(b@.skip(i as int)[0] == b@[i as int]);
        a[i] < b[i]
    }
}

/// A commit of the report: short hash, one-line summary, impact line,
/// merge advice, and detailed entry.
pub struct ReportItem {
    pub short_hash: String,
    pub summary: String,
    pub impact: String,
    pub advice: String,
    pub entry: String,
}

/// The mathematical value of a report item.
pub struct ItemView {
    pub short_hash: Seq<char>,
    pub summary: Seq<char>,
    pub impact: Seq<char>,
    pub advice: Seq<char>,
    pub entry: Seq<char>,
}

impl View for ReportItem {
    type V = ItemView;

    open spec fn view(&self) -> ItemView {
        ItemView {
            short_hash: self.short_hash@,
            summary: self.summary@,
            impact: self.impact@,
            advice: self.advice@,
            entry: self.entry@,
        }
    }
}

/// The views of report items.
pub open spec fn item_views(v: Seq<ReportItem>) -> Seq<ItemView> {
    v.map_values(|x: ReportItem| x@)
}

/// The groups of a report, each a category and its commits in the order
/// they were added.
pub type GroupsView = Seq<(Seq<char>, Seq<ItemView>)>;

/// Category names strictly increase along the groups.
pub open spec fn names_sorted(gs: GroupsView) -> bool {
    forall|i: int, j: int| 0 <= i < j < gs.len() ==> text_before(#[trigger] gs[i].0, #[trigger] gs[j].0)
}

/// Where `c` belongs among the groups: the number of groups whose names
/// come before it.
pub open spec fn position_of(gs: GroupsView, c: Seq<char>) -> int
    decreases gs.len(),
{
    if gs.len() == 0 {
        0
    } else if text_before(gs[0].0, c) {
        1 + position_of(gs.drop_first(), c)
    } else {
        0
    }
}

/// The groups after a commit `x` of category `c` is added: appended to the
/// group of `c`, or in a new group placed in the order of names.
pub open spec fn added(gs: GroupsView, c: Seq<char>, x: ItemView) -> GroupsView {
    let p = position_of(gs, c);
    if p < gs.len() && gs[p].0 == c {
        gs.update(p, (c, gs[p].1.push(x)))
    } else {
        gs.insert(p, (c, seq![x]))
    }
}

/// The index of the first group named `c`, or the number of groups.
pub open spec fn group_index(gs: GroupsView, c: Seq<char>) -> int
    decreases gs.len(),
{
    if gs.len() == 0 {
        0
    } else if gs[0].0 == c {
        0
    } else {
        1 + group_index(gs.drop_first(), c)
    }
}

/// The commits of category `c` (none when it has no group).
pub open spec fn group_of(gs: GroupsView, c: Seq<char>) -> Seq<ItemView> {
    let k = group_index(gs, c);
    if k < gs.len() {
        gs[k].1
    } else {
        seq![]
    }
}

/// `group_index` finds the first group named `c`.
proof fn lemma_group_index(gs: GroupsView, c: Seq<char>)
    ensures
        0 <= group_index(gs, c) <= gs.len(),
        forall|i: int| 0 <= i < group_index(gs, c) ==> #[trigger] gs[i].0 != c,
        group_index(gs, c) < gs.len() ==> gs[group_index(gs, c)].0 == c,
    decreases gs.len(),
{
    if gs.len() > 0 && gs[0].0 != c {
        let t = gs.drop_first();
        lemma_group_index(t, c);
        assert forall|i: int| 0 <= i < group_index(gs, c) implies #[trigger] gs[i].0 != c by {
            if i > 0 {
                assert(gs[i] == t[i - 1]);
            }
        }
        if group_index(gs, c) < gs.len() {
            assert(gs[group_index(gs, c)] == t[group_index(t, c)]);
        }
    }
}

/// The commits of a report, grouped by category in the order of the names.
/// The groups are kept in a `Vec` whose order is proved here, rather than
/// in a `BTreeMap<String, _>`: vstd's specification of `BTreeMap` holds
/// only for keys whose `Ord` is known to obey its model of ordering, which
/// nothing establishes for `String`.
pub struct ReportGroups {
    groups: Vec<(String, Vec<ReportItem>)>,
}

impl View for ReportGroups {
    type V = GroupsView;

    closed spec fn view(&self) -> GroupsView {
        self.groups@.map_values(|g: (String, Vec<ReportItem>)| (g.0@, item_views(g.1@)))
    }
}

impl ReportGroups {
    #[verifier::type_invariant]
    spec fn sorted(&self) -> bool {
        names_sorted(self@)
    }

    /// No commits yet.
    pub fn new() -> (r: ReportGroups)
        ensures
            r@ == Seq::<(Seq<char>, Seq<ItemView>)>::empty(),
    {
        let r = ReportGroups { groups: Vec::new() };
        assert(r@ =~= Seq::<(Seq<char>, Seq<ItemView>)>::empty());
        r
    }

    /// The names of the groups strictly increase.
    pub fn check_sorted(&self)
        ensures
            names_sorted(self@),
    {
        proof {
            use_type_invariant(self);
        }
    }

    /// Adds a commit of category `category`.
    pub fn add(&mut self, category: &str, item: ReportItem)
        ensures
            final(self)@ == added(old(self)@, category@, item@),
            names_sorted(final(self)@),
    {
        proof {
            use_type_invariant(&*self);
        }
        let ghost old_view = self@;
        let mut gs: Vec<(String, Vec<ReportItem>)> = Vec::new();
        std::mem::swap(&mut gs, &mut self.groups);
        assert(gs@.map_values(|g: (String, Vec<ReportItem>)| (g.0@, item_views(g.1@))) == old_view);
        let c = chars_of(category);
        let mut p: usize = 0;
        assert(old_view.skip(0) =~= old_view);
        while p < gs.len() && chars_before(&chars_of(gs[p].0.as_str()), &c)
            invariant
                p <= gs.len(),
                c@ == category@,
                old_view == gs@.map_values(|g: (String, Vec<ReportItem>)| (g.0@, item_views(g.1@))),
                position_of(old_view, category@) == p + position_of(old_view.skip(p as int), category@),
                forall|i: int| 0 <= i < p ==> text_before(#[trigger] old_view[i].0, category@),
            decreases gs.len() - p,
        {
            assert(old_view.skip(p as int)[0] == old_view[p as int]);
            assert(old_view.skip(p as int).drop_first() =~= old_view.skip(p + 1));
            p += 1;
        }
        proof {
            if p < gs.len() {
                assert(old_view.skip(p as int)[0] == old_view[p as int]);
            }
            assert(position_of(old_view, category@) == p);
        }
        let found = p < gs.len() && same_chars(&chars_of(gs[p].0.as_str()), &c);
        if found {
            let (name, mut items) = gs.remove(p);
            let ghost iv = item_views(items@);
            items.push(item);
            assert(item_views(items@) =~= iv.push(item@));
            gs.insert(p, (name, items));
            proof {
                let newv = gs@.map_values(|g: (String, Vec<ReportItem>)| (g.0@, item_views(g.1@)));
                assert(newv =~= added(old_view, category@, item@));
            }
        } else {
            let mut items: Vec<ReportItem> = Vec::new();
            items.push(item);
            assert(item_views(items@) =~= seq![item@]);
            gs.insert(p, (String::from_str(category), items));
            proof {
                let newv = gs@.map_values(|g: (String, Vec<ReportItem>)| (g.0@, item_views(g.1@)));
                assert(newv =~= added(old_view, category@, item@));
                lemma_added_sorted(old_view, category@, item@);
            }
        }
        proof {
            lemma_added_sorted(old_view, category@, item@);
        }
        self.groups = gs;
    }

    /// The groups, in the order of their names.
    pub fn groups(&self) -> (r: &Vec<(String, Vec<ReportItem>)>)
        ensures
            r@.map_values(|g: (String, Vec<ReportItem>)| (g.0@, item_views(g.1@))) == self@,
    {
        &self.groups
    }
}

/// `position_of` counts exactly the groups whose names come before `c`.
proof fn lemma_position_of(gs: GroupsView, c: Seq<char>)
    requires
        names_sorted(gs),
    ensures
        0 <= position_of(gs, c) <= gs.len(),
        forall|i: int| 0 <= i < position_of(gs, c) ==> text_before(#[trigger] gs[i].0, c),
        position_of(gs, c) < gs.len() ==> !text_before(gs[position_of(gs, c)].0, c),
    decreases gs.len(),
{
    if gs.len() > 0 && text_before(gs[0].0, c) {
        let t = gs.drop_first();
        assert forall|i: int, j: int| 0 <= i < j < t.len() implies text_before(
            #[trigger] t[i].0,
            #[trigger] t[j].0,
        ) by {
            assert(t[i] == gs[i + 1] && t[j] == gs[j + 1]);
        }
        lemma_position_of(t, c);
        assert forall|i: int| 0 <= i < position_of(gs, c) implies text_before(#[trigger] gs[i].0, c) by {
            if i > 0 {
                assert(gs[i] == t[i - 1]);
            }
        }
        if position_of(gs, c) < gs.len() {
            assert(gs[position_of(gs, c)] == t[position_of(t, c)]);
        }
    }
}

/// Adding a commit keeps the names in order.
pub proof fn lemma_added_sorted(gs: GroupsView, c: Seq<char>, x: ItemView)
    requires
        names_sorted(gs),
    ensures
        names_sorted(added(gs, c, x)),
{
    lemma_position_of(gs, c);
    let p = position_of(gs, c);
    let r = added(gs, c, x);
    if p < gs.len() && gs[p].0 == c {
        assert forall|i: int, j: int| 0 <= i < j < r.len() implies text_before(
            #[trigger] r[i].0,
            #[trigger] r[j].0,
        ) by {
            assert(r[i].0 == gs[i].0 && r[j].0 == gs[j].0);
        }
    } else {
        if p < gs.len() {
            lemma_text_before_total(gs[p].0, c);
        }
        assert forall|i: int, j: int| 0 <= i < j < r.len() implies text_before(
            #[trigger] r[i].0,
            #[trigger] r[j].0,
        ) by {
            if j < p {
                assert(r[i] == gs[i] && r[j] == gs[j]);
            } else if j == p {
                assert(r[i] == gs[i]);
            } else if i < p {
                assert(r[i] == gs[i] && r[j] == gs[j - 1]);
                if j - 1 > p {
                    assert(text_before(gs[p].0, gs[j - 1].0));
                    lemma_text_before_transitive(c, gs[p].0, gs[j - 1].0);
                }
                lemma_text_before_transitive(gs[i].0, c, gs[j - 1].0);
            } else if i == p {
                assert(r[j] == gs[j - 1]);
                if j - 1 > p {
                    assert(text_before(gs[p].0, gs[j - 1].0));
                    lemma_text_before_transitive(c, gs[p].0, gs[j - 1].0);
                }
            } else {
                assert(r[i] == gs[i - 1] && r[j] == gs[j - 1]);
            }
        }
    }
}

/// In ordered groups, a name has at most one group.
proof fn lemma_names_unique(gs: GroupsView, i: int, j: int)
    requires
        names_sorted(gs),
        0 <= i < gs.len(),
        0 <= j < gs.len(),
        gs[i].0 == gs[j].0,
    ensures
        i == j,
{
    if i < j {
        lemma_text_before_irreflexive(gs[i].0);
    } else if j < i {
        lemma_text_before_irreflexive(gs[j].0);
    }
}

/// The commits of a name that has the group at `k`.
proof fn lemma_group_at(gs: GroupsView, n: Seq<char>, k: int)
    requires
        names_sorted(gs),
        0 <= k < gs.len(),
        gs[k].0 == n,
    ensures
        group_of(gs, n) == gs[k].1,
{
    lemma_group_index(gs, n);
    let j = group_index(gs, n);
    if j < k {
        lemma_names_unique(gs, j, k);
    }
}

/// A name without a group has no commits.
proof fn lemma_group_absent(gs: GroupsView, n: Seq<char>)
    requires
        forall|i: int| 0 <= i < gs.len() ==> #[trigger] gs[i].0 != n,
    ensures
        group_of(gs, n) == Seq::<ItemView>::empty(),
{
    lemma_group_index(gs, n);
}

/// Adding a commit of category `c` appends it to the commits of `c` and
/// leaves every other category's commits as they were.
pub proof fn lemma_added_group(gs: GroupsView, c: Seq<char>, x: ItemView, n: Seq<char>)
    requires
        names_sorted(gs),
    ensures
        group_of(added(gs, c, x), n) == if n == c {
            group_of(gs, c).push(x)
        } else {
            group_of(gs, n)
        },
{
    lemma_position_of(gs, c);
    lemma_added_sorted(gs, c, x);
    let p = position_of(gs, c);
    let r = added(gs, c, x);
    if p < gs.len() && gs[p].0 == c {
        assert(r.len() == gs.len());
        assert forall|i: int| 0 <= i < r.len() implies #[trigger] r[i].0 == gs[i].0 by {}
        if n == c {
            lemma_group_at(r, n, p);
            lemma_group_at(gs, n, p);
        } else if exists|i: int| 0 <= i < gs.len() && #[trigger] gs[i].0 == n {
            let k = choose|i: int| 0 <= i < gs.len() && #[trigger] gs[i].0 == n;
            assert(k != p);
            assert(r[k] == gs[k]);
            lemma_group_at(r, n, k);
            lemma_group_at(gs, n, k);
        } else {
            assert forall|i: int| 0 <= i < r.len() implies #[trigger] r[i].0 != n by {
                assert(r[i].0 == gs[i].0);
            }
            lemma_group_absent(r, n);
            lemma_group_absent(gs, n);
        }
    } else {
        assert forall|i: int| 0 <= i < gs.len() implies #[trigger] gs[i].0 != c by {
            if i < p {
                lemma_text_before_irreflexive(c);
            } else {
                lemma_text_before_total(gs[p].0, c);
                if i > p {
                    assert(text_before(gs[p].0, gs[i].0));
                    if gs[i].0 == c {
                        lemma_text_before_transitive(c, gs[p].0, c);
                        lemma_text_before_irreflexive(c);
                    }
                }
            }
        }
        assert(r.len() == gs.len() + 1);
        assert(r[p] == (c, seq![x]));
        if n == c {
            lemma_group_at(r, n, p);
            lemma_group_absent(gs, c);
            assert(seq![x] =~= Seq::<ItemView>::empty().push(x));
        } else if exists|i: int| 0 <= i < gs.len() && #[trigger] gs[i].0 == n {
            let k = choose|i: int| 0 <= i < gs.len() && #[trigger] gs[i].0 == n;
            let kk = if k < p {
                k
            } else {
                k + 1
            };
            assert(r[kk] == gs[k]);
            lemma_group_at(r, n, kk);
            lemma_group_at(gs, n, k);
        } else {
            assert forall|i: int| 0 <= i < r.len() implies #[trigger] r[i].0 != n by {
                if i < p {
                    assert(r[i] == gs[i]);
                } else if i > p {
                    assert(r[i] == gs[i - 1]);
                }
            }
            lemma_group_absent(r, n);
            lemma_group_absent(gs, n);
        }
    }
}

/// Each category with its number of commits.
pub open spec fn group_counts(gs: GroupsView) -> Seq<(Seq<char>, usize)> {
    gs.map_values(|g: (Seq<char>, Seq<ItemView>)| (g.0, g.1.len() as usize))
}

/// The `(category, advice)` pair of every commit, group after group.
pub open spec fn advice_of(gs: GroupsView) -> Seq<(Seq<char>, Seq<char>)>
    decreases gs.len(),
{
    if gs.len() == 0 {
        seq![]
    } else {
        let g = gs.last();
        advice_of(gs.drop_last()) + g.1.map_values(|x: ItemView| (g.0, x.advice))
    }
}

/// The detailed entries of a group's commits.
pub open spec fn entries_in(items: Seq<ItemView>) -> Seq<Seq<char>> {
    items.map_values(|x: ItemView| x.entry)
}

/// Each category with the detailed entries of its commits.
pub open spec fn entries_of(gs: GroupsView) -> Seq<(Seq<char>, Seq<Seq<char>>)> {
    gs.map_values(|g: (Seq<char>, Seq<ItemView>)| (g.0, entries_in(g.1)))
}

impl ReportGroups {
    /// Each category with its number of commits, in the order of names.
    pub fn category_counts(&self) -> (r: Vec<(String, usize)>)
        ensures
            count_views(r@) == group_counts(self@),
    {
        let ghost gv = self@;
        let mut r: Vec<(String, usize)> = Vec::new();
        let mut k: usize = 0;
        assert(count_views(r@) =~= group_counts(gv).take(0));
        while k < self.groups.len()
            invariant
                k <= self.groups.len(),
                gv == self@,
                gv == self.groups@.map_values(
                    |g: (String, Vec<ReportItem>)| (g.0@, item_views(g.1@)),
                ),
                count_views(r@) == group_counts(gv).take(k as int),
            decreases self.groups.len() - k,
        {
            let ghost prev = r@;
            let n = self.groups[k].1.len();
            r.push((self.groups[k].0.clone(), n));
            proof {
                assert(gv[k as int].1.len() == n);
                assert(count_views(r@) =~= count_views(prev).push((gv[k as int].0, n)));
                assert(group_counts(gv).take(k + 1) =~= group_counts(gv).take(k as int).push(
                    group_counts(gv)[k as int],
                ));
            }
            k += 1;
        }
        assert(group_counts(gv).take(k as int) =~= group_counts(gv));
        r
    }

    /// The `(category, advice)` pair of every commit, group after group.
    pub fn advice_pairs(&self) -> (r: Vec<(String, String)>)
        ensures
            pair_views(r@) == advice_of(self@),
    {
        let ghost gv = self@;
        let mut r: Vec<(String, String)> = Vec::new();
        let mut k: usize = 0;
        assert(gv.take(0) =~= Seq::<(Seq<char>, Seq<ItemView>)>::empty());
        assert(pair_views(r@) =~= Seq::<(Seq<char>, Seq<char>)>::empty());
        while k < self.groups.len()
            invariant
                k <= self.groups.len(),
                gv == self@,
                gv == self.groups@.map_values(
                    |g: (String, Vec<ReportItem>)| (g.0@, item_views(g.1@)),
                ),
                pair_views(r@) == advice_of(gv.take(k as int)),
            decreases self.groups.len() - k,
        {
            let name = &self.groups[k].0;
            let items = &self.groups[k].1;
            let ghost g = gv[k as int];
            let ghost before = pair_views(r@);
            let mut j: usize = 0;
            assert(pair_views(r@) =~= before + g.1.take(0).map_values(
                |x: ItemView| (g.0, x.advice),
            ));
            while j < items.len()
                invariant
                    j <= items.len(),
                    g == (name@, item_views(items@)),
                    pair_views(r@) == before + g.1.take(j as int).map_values(
                        |x: ItemView| (g.0, x.advice),
                    ),
                decreases items.len() - j,
            {
                let ghost prev = r@;
                r.push((name.clone(), items[j].advice.clone()));
                proof {
                    assert(g.1[j as int] == items@[j as int]@);
                    assert(g.1.take(j + 1) =~= g.1.take(j as int).push(g.1[j as int]));
                    assert(pair_views(r@) =~= pair_views(prev).push((name@, items@[j as int].advice@)));
                    assert(g.1.take(j + 1).map_values(|x: ItemView| (g.0, x.advice)) =~= g.1.take(
                        j as int,
                    ).map_values(|x: ItemView| (g.0, x.advice)).push((g.0, g.1[j as int].advice)));
                    assert(pair_views(r@) =~= before + g.1.take(j + 1).map_values(
                        |x: ItemView| (g.0, x.advice),
                    ));
                }
                j += 1;
            }
            proof {
                assert(g.1.take(j as int) =~= g.1);
                assert(gv.take(k + 1).drop_last() =~= gv.take(k as int));
                assert(gv.take(k + 1).last() == g);
            }
            k += 1;
        }
        assert(gv.take(k as int) =~= gv);
        r
    }

    /// Each category with the detailed entries of its commits.
    pub fn entry_groups(&self) -> (r: Vec<(String, Vec<String>)>)
        ensures
            group_views(r@) == entries_of(self@),
    {
        let ghost gv = self@;
        let mut r: Vec<(String, Vec<String>)> = Vec::new();
        let mut k: usize = 0;
        assert(group_views(r@) =~= entries_of(gv).take(0));
        while k < self.groups.len()
            invariant
                k <= self.groups.len(),
                gv == self@,
                gv == self.groups@.map_values(
                    |g: (String, Vec<ReportItem>)| (g.0@, item_views(g.1@)),
                ),
                group_views(r@) == entries_of(gv).take(k as int),
            decreases self.groups.len() - k,
        {
            let items = &self.groups[k].1;
            let ghost g = gv[k as int];
            let mut es: Vec<String> = Vec::new();
            let mut j: usize = 0;
            assert(text_views(es@) =~= entries_in(g.1.take(0)));
            while j < items.len()
                invariant
                    j <= items.len(),
                    g.1 == item_views(items@),
                    text_views(es@) == entries_in(g.1.take(j as int)),
                decreases items.len() - j,
            {
                let ghost prev = es@;
                es.push(items[j].entry.clone());
                proof {
                    assert(g.1[j as int] == items@[j as int]@);
                    assert(g.1.take(j + 1) =~= g.1.take(j as int).push(g.1[j as int]));
                    assert(text_views(es@) =~= text_views(prev).push(items@[j as int].entry@));
                    assert(entries_in(g.1.take(j + 1)) =~= entries_in(g.1.take(j as int)).push(
                        g.1[j as int].entry,
                    ));
                }
                j += 1;
            }
            assert(g.1.take(j as int) =~= g.1);
            let ghost prev = r@;
            r.push((self.groups[k].0.clone(), es));
            proof {
                assert(group_views(r@) =~= group_views(prev).push((gv[k as int].0, entries_in(g.1))));
                assert(entries_of(gv).take(k + 1) =~= entries_of(gv).take(k as int).push(
                    entries_of(gv)[k as int],
                ));
            }
            k += 1;
        }
        assert(entries_of(gv).take(k as int) =~= entries_of(gv));
        r
    }
}

} // verus!

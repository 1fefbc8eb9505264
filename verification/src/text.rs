//! Character-level text operations: the model of `&str` as a sequence of
//! `char`s, with the few string operations the library needs (whitespace
//! trimming, substring search, prefixes, line splitting), each executable
//! function proved against its specification.
use vstd::prelude::*;

verus! {

/// Unicode `White_Space`, the property that `char::is_whitespace` tests.
pub open spec fn is_white(c: char) -> bool {
    ||| ('\u{9}' <= c && c <= '\u{d}')
    ||| c == ' '
    ||| c == '\u{85}'
    ||| c == '\u{a0}'
    ||| c == '\u{1680}'
    ||| ('\u{2000}' <= c && c <= '\u{200a}')
    ||| c == '\u{2028}'
    ||| c == '\u{2029}'
    ||| c == '\u{202f}'
    ||| c == '\u{205f}'
    ||| c == '\u{3000}'
}

/// `s` with its leading whitespace removed (`str::trim_start`).
pub open spec fn trim_start(s: Seq<char>) -> Seq<char>
    decreases s.len(),
{
    if s.len() > 0 && is_white(s[0]) {
        trim_start(s.drop_first())
    } else {
        s
    }
}

/// `s` with its trailing whitespace removed (`str::trim_end`).
pub open spec fn trim_end(s: Seq<char>) -> Seq<char>
    decreases s.len(),
{
    if s.len() > 0 && is_white(s.last()) {
        trim_end(s.drop_last())
    } else {
        s
    }
}

/// `s` with leading and trailing whitespace removed (`str::trim`).
pub open spec fn trim(s: Seq<char>) -> Seq<char> {
    trim_end(trim_start(s))
}

/// `n` occurs in `s` at position `i`.
pub open spec fn occurs_at(s: Seq<char>, n: Seq<char>, i: int) -> bool {
    0 <= i && i + n.len() <= s.len() && s.subrange(i, i + n.len()) == n
}

/// `n` is a substring of `s` (`str::contains` with a string pattern).
pub open spec fn contains_seq(s: Seq<char>, n: Seq<char>) -> bool {
    exists|i: int| #[trigger] occurs_at(s, n, i)
}

/// `s` begins with `p` (`str::starts_with`).
pub open spec fn starts(s: Seq<char>, p: Seq<char>) -> bool {
    p.len() <= s.len() && s.subrange(0, p.len() as int) == p
}

/// `str::strip_prefix`: what follows `p` when `s` begins with it.
pub open spec fn strip(s: Seq<char>, p: Seq<char>) -> Option<Seq<char>> {
    if starts(s, p) {
        Some(s.skip(p.len() as int))
    } else {
        None
    }
}

/// `str::trim_start_matches` with a non-empty string pattern: every leading
/// repetition of `p` removed.
pub open spec fn strip_all(s: Seq<char>, p: Seq<char>) -> Seq<char>
    decreases s.len(),
{
    if p.len() > 0 && starts(s, p) {
        strip_all(s.skip(p.len() as int), p)
    } else {
        s
    }
}

/// The position of the first `c` in `s`, or `s.len()` if there is none.
pub open spec fn index_of(s: Seq<char>, c: char) -> nat
    decreases s.len(),
{
    if s.len() == 0 {
        0
    } else if s[0] == c {
        0
    } else {
        1 + index_of(s.drop_first(), c)
    }
}

/// A line without its line terminator: one `\r` before the `\n` goes too.
pub open spec fn strip_cr(l: Seq<char>) -> Seq<char> {
    if l.len() > 0 && l.last() == '\r' {
        l.drop_last()
    } else {
        l
    }
}

/// The lines of `s`, as `str::lines` yields them: split at `\n`, a `\r`
/// directly before a `\n` removed, and no empty last line after a final `\n`.
pub open spec fn lines(s: Seq<char>) -> Seq<Seq<char>>
    decreases s.len(),
{
    if s.len() == 0 {
        seq![]
    } else {
        let k = index_of(s, '\n');
        if k < s.len() {
            seq![strip_cr(s.take(k as int))] + lines(s.skip((k + 1) as int))
        } else {
            seq![s]
        }
    }
}

/// The first `n` characters of `s` (all of them when it is shorter).
pub open spec fn take_chars(s: Seq<char>, n: nat) -> Seq<char> {
    if s.len() <= n {
        s
    } else {
        s.take(n as int)
    }
}

/// A whitespace character at the end of a text does not change its trimmed
/// form.
pub proof fn lemma_trim_push_white(s: Seq<char>, w: char)
    requires
        is_white(w),
    ensures
        trim(s.push(w)) == trim(s),
    decreases s.len(),
{
    if s.len() == 0 {
        assert(s.push(w).drop_first() =~= s);
    } else if is_white(s[0]) {
        assert(s.push(w).drop_first() =~= s.drop_first().push(w));
        lemma_trim_push_white(s.drop_first(), w);
    } else {
        assert(s.push(w).drop_last() =~= s);
    }
}

/// A substring of `x` is a substring of `x` with anything put before or
/// after it.
pub proof fn lemma_contains_in_concat(x: Seq<char>, y: Seq<char>, k: Seq<char>)
    requires
        contains_seq(x, k),
    ensures
        contains_seq(x + y, k),
        contains_seq(y + x, k),
{
    let i = choose|i: int| #[trigger] occurs_at(x, k, i);
    assert((x + y).subrange(i, i + k.len()) =~= x.subrange(i, i + k.len()));
    assert(occurs_at(x + y, k, i));
    assert((y + x).subrange(y.len() + i, y.len() + i + k.len()) =~= x.subrange(i, i + k.len()));
    assert(occurs_at(y + x, k, y.len() + i));
}

/// Turning ASCII letters to small letters keeps a text plain or not plain,
/// does nothing the second time, and undoes turning them to capitals.
pub proof fn lemma_ascii_lowercase(s: Seq<char>)
    ensures
        plain_text(ascii_lowercase(s)) == plain_text(s),
        ascii_lowercase(ascii_lowercase(s)) == ascii_lowercase(s),
        ascii_lowercase(ascii_uppercase(s)) == ascii_lowercase(s),
{
    let l = ascii_lowercase(s);
    assert forall|i: int| 0 <= i < s.len() implies #[trigger] ascii_lower(ascii_lower(s[i]))
        == ascii_lower(s[i]) && ascii_lower(ascii_upper(s[i])) == ascii_lower(s[i]) && (plain_char(
        ascii_lower(s[i]),
    ) == plain_char(s[i])) by {
        let c = s[i];
        if 'A' <= c && c <= 'Z' {
            assert(((c as int) + 32) as char as int == (c as int) + 32);
        }
        if 'a' <= c && c <= 'z' {
            assert(((c as int) - 32) as char as int == (c as int) - 32);
        }
    }
    if plain_text(s) {
        assert forall|i: int| 0 <= i < l.len() implies plain_char(#[trigger] l[i]) by {
            assert(l[i] == ascii_lower(s[i]));
        }
    }
    if plain_text(l) {
        assert forall|i: int| 0 <= i < s.len() implies plain_char(#[trigger] s[i]) by {
            assert(l[i] == ascii_lower(s[i]));
        }
    }
    assert(ascii_lowercase(l) =~= l);
    assert(ascii_lowercase(ascii_uppercase(s)) =~= l);
}

/// `index_of` is the only position before which `c` does not occur and at
/// which it does (or the end).
pub proof fn lemma_index_of(s: Seq<char>, c: char, k: int)
    requires
        0 <= k <= s.len(),
        forall|j: int| 0 <= j < k ==> s[j] != c,
        k == s.len() || s[k] == c,
    ensures
        index_of(s, c) == k,
    decreases s.len(),
{
    if s.len() > 0 && s[0] != c {
        assert forall|j: int| 0 <= j < k - 1 implies s.drop_first()[j] != c by {
            assert(s[j + 1] != c);
        }
        lemma_index_of(s.drop_first(), c, k - 1);
    }
}

/// Bounds and meaning of `index_of`.
pub proof fn lemma_index_of_bounds(s: Seq<char>, c: char)
    ensures
        index_of(s, c) <= s.len(),
        forall|j: int| 0 <= j < index_of(s, c) ==> s[j] != c,
        index_of(s, c) < s.len() ==> s[index_of(s, c) as int] == c,
    decreases s.len(),
{
    if s.len() > 0 && s[0] != c {
        lemma_index_of_bounds(s.drop_first(), c);
        assert forall|j: int| 0 <= j < index_of(s, c) implies s[j] != c by {
            if j > 0 {
                assert(s.drop_first()[j - 1] == s[j]);
            }
        }
    }
}

/// `char::is_whitespace`.
pub fn is_white_char(c: char) -> (r: bool)
    ensures
        r == is_white(c),
{
    ('\u{9}' <= c && c <= '\u{d}') || c == ' ' || c == '\u{85}' || c == '\u{a0}' || c == '\u{1680}'
        || ('\u{2000}' <= c && c <= '\u{200a}') || c == '\u{2028}' || c == '\u{2029}' || c
        == '\u{202f}' || c == '\u{205f}' || c == '\u{3000}'
}

/// The characters of `s`, in order.
pub fn chars_of(s: &str) -> (v: Vec<char>)
    ensures
        v@ == s@,
{
    let mut v: Vec<char> = Vec::new();
    for c in it: s.chars()
        invariant
            v@ == it.seq().take(it.index() as int),
    {
        v.push(c);
    }
    v
}

/// A copy of `v[lo..hi]`.
pub fn sub_vec(v: &Vec<char>, lo: usize, hi: usize) -> (r: Vec<char>)
    requires
        lo <= hi <= v.len(),
    ensures
        r@ == v@.subrange(lo as int, hi as int),
{
    let mut r: Vec<char> = Vec::new();
    let mut i = lo;
    while i < hi
        invariant
            lo <= i <= hi <= v.len(),
            r@ == v@.subrange(lo as int, i as int),
        decreases hi - i,
    {
        r.push(v[i]);
        i += 1;
        assert(r@ =~= v@.subrange(lo as int, i as int));
    }
    r
}

/// The position where `v[lo..hi]` starts once its leading whitespace is gone.
pub fn trim_start_at(v: &Vec<char>, lo: usize, hi: usize) -> (a: usize)
    requires
        lo <= hi <= v.len(),
    ensures
        lo <= a <= hi,
        v@.subrange(a as int, hi as int) == trim_start(v@.subrange(lo as int, hi as int)),
{
    let mut a = lo;
    while a < hi && is_white_char(v[a])
        invariant
            lo <= a <= hi <= v.len(),
            trim_start(v@.subrange(lo as int, hi as int)) == trim_start(
                v@.subrange(a as int, hi as int),
            ),
        decreases hi - a,
    {
        assert(v@.subrange(a as int, hi as int).drop_first() =~= v@.subrange(
            a + 1,
            hi as int,
        ));
        a += 1;
    }
    a
}

/// The position where `v[lo..hi]` ends once its trailing whitespace is gone.
pub fn trim_end_at(v: &Vec<char>, lo: usize, hi: usize) -> (b: usize)
    requires
        lo <= hi <= v.len(),
    ensures
        lo <= b <= hi,
        v@.subrange(lo as int, b as int) == trim_end(v@.subrange(lo as int, hi as int)),
{
    let mut b = hi;
    while b > lo && is_white_char(v[b - 1])
        invariant
            lo <= b <= hi <= v.len(),
            trim_end(v@.subrange(lo as int, hi as int)) == trim_end(
                v@.subrange(lo as int, b as int),
            ),
        decreases b - lo,
    {
        assert(v@.subrange(lo as int, b as int).drop_last() =~= v@.subrange(
            lo as int,
            b - 1,
        ));
        b -= 1;
    }
    b
}

/// The bounds of `trim(v[lo..hi])` within `v`.
pub fn trim_at(v: &Vec<char>, lo: usize, hi: usize) -> (r: (usize, usize))
    requires
        lo <= hi <= v.len(),
    ensures
        lo <= r.0 <= r.1 <= hi,
        v@.subrange(r.0 as int, r.1 as int) == trim(v@.subrange(lo as int, hi as int)),
{
    let a = trim_start_at(v, lo, hi);
    let b = trim_end_at(v, a, hi);
    (a, b)
}

/// `str::trim`, on characters.
pub fn trim_vec(v: &Vec<char>) -> (r: Vec<char>)
    ensures
        r@ == trim(v@),
{
    let (a, b) = trim_at(v, 0, v.len());
    assert(v@.subrange(0, v.len() as int) =~= v@);
    sub_vec(v, a, b)
}

/// `str::trim_start`, on characters.
pub fn trim_start_vec(v: &Vec<char>) -> (r: Vec<char>)
    ensures
        r@ == trim_start(v@),
{
    let a = trim_start_at(v, 0, v.len());
    assert(v@.subrange(0, v.len() as int) =~= v@);
    sub_vec(v, a, v.len())
}

/// `n` occurs in `h` at position `i`.
pub fn matches_at(h: &Vec<char>, n: &Vec<char>, i: usize) -> (r: bool)
    ensures
        r == occurs_at(h@, n@, i as int),
{
    if i > h.len() || n.len() > h.len() - i {
        return false;
    }
    let mut k: usize = 0;
    while k < n.len()
        invariant
            i + n.len() <= h.len(),
            k <= n.len(),
            forall|t: int| 0 <= t < k ==> h@[i + t] == n@[t],
        decreases n.len() - k,
    {
        if h[i + k] != n[k] {
            assert(h@.subrange(i as int, i + n.len())[k as int] != n@[k as int]);
            return false;
        }
        k += 1;
    }
    assert(h@.subrange(i as int, i + n.len()) =~= n@);
    true
}

/// `str::contains`, on characters.
pub fn contains(h: &Vec<char>, n: &Vec<char>) -> (r: bool)
    ensures
        r == contains_seq(h@, n@),
{
    if n.len() > h.len() {
        assert forall|j: int| !occurs_at(h@, n@, j) by {}
        return false;
    }
    let limit = h.len() - n.len();
    let mut i: usize = 0;
    loop
        invariant
            n.len() <= h.len(),
            limit == h.len() - n.len(),
            i <= limit,
            forall|j: int| 0 <= j < i ==> !occurs_at(h@, n@, j),
        ensures
            forall|j: int| 0 <= j <= limit ==> !occurs_at(h@, n@, j),
        decreases limit - i,
    {
        if matches_at(h, n, i) {
            return true;
        }
        if i == limit {
            break;
        }
        i += 1;
    }
    assert forall|j: int| !occurs_at(h@, n@, j) by {
        if 0 <= j <= limit {
        }
    }
    false
}

/// Whether the literal `lit` occurs in `h`.
pub fn contains_lit(h: &Vec<char>, lit: &str) -> (r: bool)
    ensures
        r == contains_seq(h@, lit@),
{
    let n = chars_of(lit);
    contains(h, &n)
}

/// `str::starts_with` with a literal pattern, on characters.
pub fn starts_with_lit(h: &Vec<char>, lit: &str) -> (r: bool)
    ensures
        r == starts(h@, lit@),
{
    let n = chars_of(lit);
    let r = matches_at(h, &n, 0);
    assert(r == starts(h@, n@));
    r
}

/// Whether `v` holds exactly the characters of `lit`.
pub fn equals_lit(v: &Vec<char>, lit: &str) -> (r: bool)
    ensures
        r == (v@ == lit@),
{
    let n = chars_of(lit);
    if v.len() != n.len() {
        return false;
    }
    let r = matches_at(v, &n, 0);
    assert(v@.subrange(0, v.len() as int) =~= v@);
    r
}

/// `str::strip_prefix` with a literal pattern, on characters.
pub fn strip_lit(v: &Vec<char>, lit: &str) -> (r: Option<Vec<char>>)
    ensures
        r matches Some(x) ==> strip(v@, lit@) == Some(x@),
        r is None ==> strip(v@, lit@) is None,
{
    let n = chars_of(lit);
    if matches_at(v, &n, 0) {
        Some(sub_vec(v, n.len(), v.len()))
    } else {
        None
    }
}

/// `str::trim_start_matches` with a non-empty literal pattern, on characters.
pub fn strip_all_lit(v: &Vec<char>, lit: &str) -> (r: Vec<char>)
    ensures
        r@ == strip_all(v@, lit@),
{
    let n = chars_of(lit);
    if n.len() == 0 {
        return sub_vec(v, 0, v.len());
    }
    let mut a: usize = 0;
    assert(v@.skip(0) =~= v@);
    while matches_at(v, &n, a)
        invariant
            n.len() > 0,
            a <= v.len(),
            n@ == lit@,
            strip_all(v@, lit@) == strip_all(v@.skip(a as int), lit@),
        decreases v.len() - a,
    {
        assert(starts(v@.skip(a as int), n@)) by {
            assert(v@.skip(a as int).subrange(0, n.len() as int) =~= v@.subrange(
                a as int,
                a + n.len(),
            ));
        }
        assert(v@.skip(a as int).skip(n.len() as int) =~= v@.skip(a + n.len()));
        a += n.len();
    }
    assert(!starts(v@.skip(a as int), n@)) by {
        if starts(v@.skip(a as int), n@) {
            assert(v@.skip(a as int).subrange(0, n.len() as int) =~= v@.subrange(
                a as int,
                a + n.len(),
            ));
        }
    }
    sub_vec(v, a, v.len())
}

/// The position of the first `c` in `v[lo..]`, or `v.len()`.
pub fn find_char(v: &Vec<char>, lo: usize, c: char) -> (k: usize)
    requires
        lo <= v.len(),
    ensures
        lo <= k <= v.len(),
        k - lo == index_of(v@.skip(lo as int), c),
{
    let mut k = lo;
    while k < v.len() && v[k] != c
        invariant
            lo <= k <= v.len(),
            forall|j: int| lo <= j < k ==> v@[j] != c,
        decreases v.len() - k,
    {
        k += 1;
    }
    proof {
        lemma_index_of(v@.skip(lo as int), c, k - lo);
    }
    k
}

/// Each pair of `bounds` delimits, within `v`, the matching entry of `ls`.
pub open spec fn delimits(v: Seq<char>, bounds: Seq<(usize, usize)>, ls: Seq<Seq<char>>) -> bool {
    &&& bounds.len() == ls.len()
    &&& forall|i: int|
        #![trigger bounds[i]]
        #![trigger ls[i]]
        0 <= i < bounds.len() ==> {
            &&& bounds[i].0 <= bounds[i].1 <= v.len()
            &&& v.subrange(bounds[i].0 as int, bounds[i].1 as int) == ls[i]
        }
}

/// The bounds of each line of `v` (`str::lines`).
pub fn line_bounds(v: &Vec<char>) -> (r: Vec<(usize, usize)>)
    ensures
        delimits(v@, r@, lines(v@)),
{
    let mut r: Vec<(usize, usize)> = Vec::new();
    let mut pos: usize = 0;
    let ghost mut done: Seq<Seq<char>> = seq![];
    assert(v@.skip(0) =~= v@);
    while pos < v.len()
        invariant
            pos <= v.len(),
            delimits(v@, r@, done),
            lines(v@) == done + lines(v@.skip(pos as int)),
        decreases v.len() - pos,
    {
        let ghost rest = v@.skip(pos as int);
        let ghost old_done = done;
        let ghost old_r = r@;
        let k = find_char(v, pos, '\n');
        let mut e = k;
        if k < v.len() {
            if e > pos && v[e - 1] == '\r' {
                e = e - 1;
            }
            proof {
                assert(rest.take(k - pos) =~= v@.subrange(pos as int, k as int));
                assert(rest.skip(k - pos + 1) =~= v@.skip(k + 1));
                if e < k {
                    assert(v@.subrange(pos as int, k as int).drop_last() =~= v@.subrange(
                        pos as int,
                        e as int,
                    ));
                }
                assert(strip_cr(rest.take(k - pos)) == v@.subrange(pos as int, e as int));
                done = done.push(v@.subrange(pos as int, e as int));
                assert(lines(rest) == seq![v@.subrange(pos as int, e as int)] + lines(
                    v@.skip(k + 1),
                ));
                assert(lines(v@) =~= done + lines(v@.skip(k + 1)));
            }
        } else {
            proof {
                assert(rest =~= v@.subrange(pos as int, v.len() as int));
                done = done.push(rest);
                assert(v@.skip(v.len() as int) =~= Seq::<char>::empty());
                assert(lines(v@) =~= done + lines(v@.skip(v.len() as int)));
            }
        }
        r.push((pos, e));
        proof {
            assert forall|i: int|
                #![trigger r@[i]]
                #![trigger done[i]]
                0 <= i < r@.len() implies {
                &&& r@[i].0 <= r@[i].1 <= v@.len()
                &&& v@.subrange(r@[i].0 as int, r@[i].1 as int) == done[i]
            } by {
                if i < old_r.len() {
                    assert(r@[i] == old_r[i]);
                    assert(old_done[i] == done[i]);
                } else {
                    assert(r@[i] == (pos, e));
                }
            }
            assert(r@.len() == done.len());
            assert(delimits(v@, r@, done));
        }
        if k < v.len() {
            pos = k + 1;
        } else {
            pos = v.len();
        }
    }
    assert(v@.skip(pos as int) =~= Seq::<char>::empty());
    assert(done =~= lines(v@));
    r
}

/// The bounds of the first line of `v`, if `v` is not empty.
pub fn first_line_bounds(v: &Vec<char>) -> (r: Option<(usize, usize)>)
    ensures
        r is None <==> lines(v@).len() == 0,
        r matches Some(b) ==> b.0 <= b.1 <= v.len() && v@.subrange(b.0 as int, b.1 as int)
            == lines(v@)[0],
{
    let ls = line_bounds(v);
    if ls.len() == 0 {
        None
    } else {
        assert(v@.subrange(ls@[0].0 as int, ls@[0].1 as int) == lines(v@)[0]);
        Some(ls[0])
    }
}

/// The lowercase form of a string, as `str::to_lowercase` computes it from
/// Unicode's case mappings.
pub uninterp spec fn lowercase(s: Seq<char>) -> Seq<char>;

/// A character whose lowercase form needs no table: an ASCII character, a
/// CJK unified ideograph (U+4E00 to U+9FFF), or the fullwidth colon `：`.
/// Of these only `A` to `Z` have a case.
pub open spec fn plain_char(c: char) -> bool {
    ||| c <= '\u{7f}'
    ||| ('\u{4e00}' <= c && c <= '\u{9fff}')
    ||| c == '\u{ff1a}'
}

/// Every character of `s` is plain.
pub open spec fn plain_text(s: Seq<char>) -> bool {
    forall|i: int| 0 <= i < s.len() ==> plain_char(#[trigger] s[i])
}

/// `A` to `Z` become `a` to `z`, every other character stays
/// (`char::to_ascii_lowercase`).
pub open spec fn ascii_lower(c: char) -> char {
    if 'A' <= c && c <= 'Z' {
        ((c as int) + 32) as char
    } else {
        c
    }
}

/// `a` to `z` become `A` to `Z`, every other character stays
/// (`char::to_ascii_uppercase`).
pub open spec fn ascii_upper(c: char) -> char {
    if 'a' <= c && c <= 'z' {
        ((c as int) - 32) as char
    } else {
        c
    }
}

/// `str::to_ascii_lowercase`; for a plain text, its lowercase form.
pub open spec fn ascii_lowercase(s: Seq<char>) -> Seq<char> {
    s.map_values(|c: char| ascii_lower(c))
}

/// `str::to_ascii_uppercase`.
pub open spec fn ascii_uppercase(s: Seq<char>) -> Seq<char> {
    s.map_values(|c: char| ascii_upper(c))
}

/// The lowercase form of a text: character by character for a plain text,
/// and otherwise as `str::to_lowercase` computes it.
pub open spec fn lower(s: Seq<char>) -> Seq<char> {
    if plain_text(s) {
        ascii_lowercase(s)
    } else {
        lowercase(s)
    }
}

/// The two forms of the Greek small sigma, `σ` and the final `ς`.
pub open spec fn is_sigma(c: char) -> bool {
    c == '\u{3c3}' || c == '\u{3c2}'
}

/// `x` and `y` are the same text but that one may have `σ` where the other
/// has `ς`.
pub open spec fn sigma_equiv(x: Seq<char>, y: Seq<char>) -> bool {
    &&& x.len() == y.len()
    &&& forall|p: int| 0 <= p < x.len() ==> #[trigger] x[p] == y[p] || (is_sigma(x[p]) && is_sigma(y[p]))
}

/// Calls `str::to_lowercase`. Claimed, as its documentation and Unicode's
/// case mappings give it: the result is `lowercase` of the argument, a
/// function of the argument alone; for a text of plain characters it is the
/// text with `A` to `Z` turned into `a` to `z`; turning ASCII capitals into
/// small letters first changes nothing; and since every character is
/// mapped on its own but for the Greek capital sigma, whose form depends on
/// whether it ends a word, the lowercase forms of the three parts of any
/// cut of the text, put together, differ from the result at most in `σ`
/// against `ς`. Nothing is claimed of what other characters become.
#[verifier::external_body]
pub(crate) fn to_lowercase(s: &str) -> (r: String)
    ensures
        r@ == lowercase(s@),
        plain_text(s@) ==> r@ == ascii_lowercase(s@),
        lowercase(ascii_lowercase(s@)) == r@,
        forall|i: int, j: int|
            0 <= i <= j <= s@.len() ==> sigma_equiv(
                r@,
                lower(s@.take(i)) + #[trigger] lower(s@.subrange(i, j)) + lower(s@.skip(j)),
            ),
{
    s.to_lowercase()
}

/// Calls `<String as FromIterator<&char>>::from_iter` on the characters of
/// `v`. Claimed: the string holds those characters, in order.
#[verifier::external_body]
pub(crate) fn string_from_chars(v: &Vec<char>) -> (s: String)
    ensures
        s@ == v@,
{
    String::from_iter(v.iter())
}

/// Whether `a` and `b` hold the same characters.
pub fn same_chars(a: &Vec<char>, b: &Vec<char>) -> (r: bool)
    ensures
        r == (a@ == b@),
{
    if a.len() != b.len() {
        return false;
    }
    let r = matches_at(a, b, 0);
    assert(a@.subrange(0, a.len() as int) =~= a@);
    r
}

/// `s` with every `|` replaced by a space.
pub open spec fn bars_to_spaces(s: Seq<char>) -> Seq<char> {
    s.map_values(|c: char| if c == '|' { ' ' } else { c })
}

/// `s.replace('|', " ")`: the text with every `|` replaced by a space.
pub fn replace_bars(s: &str) -> (r: String)
    ensures
        r@ == bars_to_spaces(s@),
{
    let v = chars_of(s);
    let mut out: Vec<char> = Vec::new();
    let mut k: usize = 0;
    while k < v.len()
        invariant
            k <= v.len(),
            out@ == bars_to_spaces(v@.take(k as int)),
        decreases v.len() - k,
    {
        let c = v[k];
        out.push(if c == '|' { ' ' } else { c });
        k += 1;
        assert(out@ =~= bars_to_spaces(v@.take(k as int)));
    }
    assert(v@.take(k as int) =~= v@);
    string_from_chars(&out)
}

} // verus!

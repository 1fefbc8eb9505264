//! Decimal integers: how `<i32 as FromStr>` and `<u32 as FromStr>` read them
//! (an optional sign, then one or more ASCII digits, and a value in range),
//! and how `format!` writes them, plain or zero-padded to a width.
use vstd::prelude::*;

verus! {

/// An ASCII decimal digit.
pub open spec fn is_digit(c: char) -> bool {
    '0' <= c && c <= '9'
}

/// The value of a decimal digit.
pub open spec fn digit_value(c: char) -> int {
    c as int - '0' as int
}

/// Every character of `d` is a decimal digit.
pub open spec fn all_digits(d: Seq<char>) -> bool {
    forall|i: int| 0 <= i < d.len() ==> is_digit(#[trigger] d[i])
}

/// The number that the decimal digits `d` write.
pub open spec fn digits_value(d: Seq<char>) -> int
    decreases d.len(),
{
    if d.len() == 0 {
        0
    } else {
        10 * digits_value(d.drop_last()) + digit_value(d.last())
    }
}

/// The number written by `s`: an optional `+` (or `-` when `signed`), then
/// at least one digit and nothing else; `None` when `s` has another shape.
pub open spec fn decimal_value(s: Seq<char>, signed: bool) -> Option<int> {
    if s.len() > 0 && (s[0] == '+' || (signed && s[0] == '-')) {
        let d = s.drop_first();
        if d.len() > 0 && all_digits(d) {
            Some(
                if s[0] == '-' {
                    -digits_value(d)
                } else {
                    digits_value(d)
                },
            )
        } else {
            None
        }
    } else if s.len() > 0 && all_digits(s) {
        Some(digits_value(s))
    } else {
        None
    }
}

/// What `s.parse::<i32>()` gives, as an `Option`.
pub open spec fn parse_i32(s: Seq<char>) -> Option<i32> {
    match decimal_value(s, true) {
        Some(v) => if i32::MIN <= v <= i32::MAX {
            Some(v as i32)
        } else {
            None
        },
        None => None,
    }
}

/// What `s.parse::<u32>()` gives, as an `Option`.
pub open spec fn parse_u32(s: Seq<char>) -> Option<u32> {
    match decimal_value(s, false) {
        Some(v) => if 0 <= v <= u32::MAX {
            Some(v as u32)
        } else {
            None
        },
        None => None,
    }
}

/// Digits never write a negative number.
pub proof fn lemma_digits_value_nonneg(d: Seq<char>)
    requires
        all_digits(d),
    ensures
        digits_value(d) >= 0,
    decreases d.len(),
{
    if d.len() > 0 {
        assert(is_digit(d[d.len() - 1]));
        lemma_digits_value_nonneg(d.drop_last());
    }
}

/// A prefix of digits writes no more than the whole.
pub proof fn lemma_digits_value_prefix(d: Seq<char>, k: int)
    requires
        all_digits(d),
        0 <= k <= d.len(),
    ensures
        digits_value(d.take(k)) <= digits_value(d),
    decreases d.len(),
{
    if k < d.len() {
        assert(d.take(k) =~= d.drop_last().take(k));
        lemma_digits_value_prefix(d.drop_last(), k);
        lemma_digits_value_nonneg(d.drop_last());
        assert(is_digit(d[d.len() - 1]));
    } else {
        assert(d.take(k) =~= d);
    }
}

/// The value of the digits of `v[start..]` when they are all digits and it
/// is at most `limit`; `None` when a character is not a digit or the value
/// exceeds `limit`.
fn digits_up_to(v: &Vec<char>, start: usize, limit: u64) -> (r: Option<u64>)
    requires
        start <= v.len(),
        limit <= 0x1_0000_0000,
    ensures
        r matches Some(m) ==> all_digits(v@.skip(start as int)) && m == digits_value(
            v@.skip(start as int),
        ) && m <= limit,
        r is None ==> !all_digits(v@.skip(start as int)) || digits_value(v@.skip(start as int))
            > limit,
{
    let ghost d = v@.skip(start as int);
    let mut m: u64 = 0;
    let mut i = start;
    assert(v@.subrange(start as int, start as int) =~= Seq::<char>::empty());
    while i < v.len()
        invariant
            start <= i <= v.len(),
            limit <= 0x1_0000_0000,
            d == v@.skip(start as int),
            all_digits(v@.subrange(start as int, i as int)),
            m == digits_value(v@.subrange(start as int, i as int)),
            m <= limit,
        decreases v.len() - i,
    {
        let c = v[i];
        if !('0' <= c && c <= '9') {
            assert(d[i - start] == c);
            return None;
        }
        let dv = (c as u32 - '0' as u32) as u64;
        let next = m * 10 + dv;
        proof {
            let p = v@.subrange(start as int, i + 1);
            assert(p.drop_last() =~= v@.subrange(start as int, i as int));
            assert(p.last() == c);
            assert forall|j: int| 0 <= j < p.len() implies is_digit(#[trigger] p[j]) by {
                if j < p.len() - 1 {
                    assert(p[j] == v@.subrange(start as int, i as int)[j]);
                }
            }
        }
        i += 1;
        if next > limit {
            proof {
                assert(d.take(i - start) =~= v@.subrange(start as int, i as int));
                if all_digits(d) {
                    lemma_digits_value_prefix(d, i - start);
                }
            }
            return None;
        }
        m = next;
    }
    assert(v@.subrange(start as int, i as int) =~= d);
    Some(m)
}

/// `s.parse::<i32>().ok()`, on characters.
pub fn parse_i32_chars(s: &Vec<char>) -> (r: Option<i32>)
    ensures
        r == parse_i32(s@),
{
    if s.len() == 0 {
        return None;
    }
    if s[0] == '+' || s[0] == '-' {
        assert(s@.drop_first() =~= s@.skip(1));
        if s.len() == 1 {
            return None;
        }
        match digits_up_to(s, 1, 0x8000_0000) {
            None => None,
            Some(m) => {
                if s[0] == '-' {
                    let neg: i64 = -(m as i64);
                    Some(neg as i32)
                } else if m <= 0x7fff_ffff {
                    Some(m as i32)
                } else {
                    None
                }
            },
        }
    } else {
        assert(s@.skip(0) =~= s@);
        match digits_up_to(s, 0, 0x7fff_ffff) {
            None => None,
            Some(m) => Some(m as i32),
        }
    }
}

/// `s.parse::<u32>().ok()`, on characters.
pub fn parse_u32_chars(s: &Vec<char>) -> (r: Option<u32>)
    ensures
        r == parse_u32(s@),
{
    if s.len() == 0 {
        return None;
    }
    if s[0] == '+' {
        assert(s@.drop_first() =~= s@.skip(1));
        if s.len() == 1 {
            return None;
        }
        match digits_up_to(s, 1, 0xffff_ffff) {
            None => None,
            Some(m) => Some(m as u32),
        }
    } else {
        assert(s@.skip(0) =~= s@);
        if s[0] == '-' {
            assert(!is_digit(s@[0]));
            return None;
        }
        match digits_up_to(s, 0, 0xffff_ffff) {
            None => None,
            Some(m) => Some(m as u32),
        }
    }
}

/// The character of the decimal digit `d`.
pub open spec fn digit_char(d: int) -> char {
    if d == 0 {
        '0'
    } else if d == 1 {
        '1'
    } else if d == 2 {
        '2'
    } else if d == 3 {
        '3'
    } else if d == 4 {
        '4'
    } else if d == 5 {
        '5'
    } else if d == 6 {
        '6'
    } else if d == 7 {
        '7'
    } else if d == 8 {
        '8'
    } else {
        '9'
    }
}

/// The decimal digits of `n`, without leading zeros (`0` for zero).
pub open spec fn decimal_digits(n: nat) -> Seq<char>
    decreases n,
{
    if n < 10 {
        seq![digit_char(n as int)]
    } else {
        decimal_digits(n / 10).push(digit_char((n % 10) as int))
    }
}

/// `s` preceded by as many zeros as make it `width` characters long.
pub open spec fn zero_padded(s: Seq<char>, width: nat) -> Seq<char> {
    if s.len() < width {
        Seq::new((width - s.len()) as nat, |i: int| '0') + s
    } else {
        s
    }
}

/// `format!("{:0w$}", v)` for a signed integer `v`: zero-padded to `width`,
/// the sign counting in the width.
pub open spec fn signed_padded(v: int, width: nat) -> Seq<char> {
    if v < 0 {
        seq!['-'] + zero_padded(
            decimal_digits((-v) as nat),
            if width > 0 {
                (width - 1) as nat
            } else {
                0
            },
        )
    } else {
        zero_padded(decimal_digits(v as nat), width)
    }
}

/// The digit characters are digits, of the right value.
pub proof fn lemma_digit_char(d: int)
    requires
        0 <= d <= 9,
    ensures
        is_digit(digit_char(d)),
        digit_value(digit_char(d)) == d,
{
}

/// Decimal digits are digits, and they write the number.
pub proof fn lemma_decimal_digits(n: nat)
    ensures
        decimal_digits(n).len() >= 1,
        all_digits(decimal_digits(n)),
        digits_value(decimal_digits(n)) == n,
    decreases n,
{
    if n < 10 {
        lemma_digit_char(n as int);
        let s = decimal_digits(n);
        assert(s.drop_last() =~= Seq::<char>::empty());
        assert(digits_value(s.drop_last()) == 0);
        assert(s.last() == digit_char(n as int));
        assert(digits_value(s) == 10 * digits_value(s.drop_last()) + digit_value(s.last()));
    } else {
        lemma_decimal_digits(n / 10);
        lemma_digit_char((n % 10) as int);
        let s = decimal_digits(n);
        assert(s.drop_last() =~= decimal_digits(n / 10));
        assert(s.last() == digit_char((n % 10) as int));
        assert(10 * (n / 10) + n % 10 == n);
        assert(digits_value(s) == 10 * digits_value(s.drop_last()) + digit_value(s.last()));
        assert forall|i: int| 0 <= i < s.len() implies is_digit(#[trigger] s[i]) by {
            if i < s.len() - 1 {
                assert(s[i] == decimal_digits(n / 10)[i]);
            }
        }
    }
}

/// Leading zeros change neither that the text is digits nor what it writes.
pub proof fn lemma_zero_padded(s: Seq<char>, width: nat)
    requires
        all_digits(s),
    ensures
        all_digits(zero_padded(s, width)),
        digits_value(zero_padded(s, width)) == digits_value(s),
        zero_padded(s, width).len() >= s.len(),
{
    if s.len() < width {
        let z = Seq::new((width - s.len()) as nat, |i: int| '0');
        lemma_zeros_then(z, s);
    }
}

/// Zeros in front of digits do not change what they write.
proof fn lemma_zeros_then(z: Seq<char>, s: Seq<char>)
    requires
        forall|i: int| 0 <= i < z.len() ==> z[i] == '0',
        all_digits(s),
    ensures
        all_digits(z + s),
        digits_value(z + s) == digits_value(s),
    decreases s.len(),
{
    assert forall|i: int| 0 <= i < (z + s).len() implies is_digit(#[trigger] (z + s)[i]) by {
        if i < z.len() {
            assert((z + s)[i] == z[i]);
        } else {
            assert((z + s)[i] == s[i - z.len()]);
        }
    }
    if s.len() == 0 {
        assert(z + s =~= z);
        lemma_zeros_value(z);
    } else {
        assert((z + s).drop_last() =~= z + s.drop_last());
        assert((z + s).last() == s.last());
        assert(all_digits(s.drop_last())) by {
            assert forall|i: int| 0 <= i < s.drop_last().len() implies is_digit(
                #[trigger] s.drop_last()[i],
            ) by {
                assert(s.drop_last()[i] == s[i]);
            }
        }
        lemma_zeros_then(z, s.drop_last());
    }
}

/// Zeros write zero.
proof fn lemma_zeros_value(z: Seq<char>)
    requires
        forall|i: int| 0 <= i < z.len() ==> z[i] == '0',
    ensures
        digits_value(z) == 0,
    decreases z.len(),
{
    if z.len() > 0 {
        assert forall|i: int| 0 <= i < z.drop_last().len() implies z.drop_last()[i] == '0' by {
            assert(z.drop_last()[i] == z[i]);
        }
        lemma_zeros_value(z.drop_last());
        assert(z.last() == '0');
    }
}

/// The character of the digit `d`.
fn digit_char_of(d: u64) -> (c: char)
    requires
        d <= 9,
    ensures
        c == digit_char(d as int),
{
    if d == 0 {
        '0'
    } else if d == 1 {
        '1'
    } else if d == 2 {
        '2'
    } else if d == 3 {
        '3'
    } else if d == 4 {
        '4'
    } else if d == 5 {
        '5'
    } else if d == 6 {
        '6'
    } else if d == 7 {
        '7'
    } else if d == 8 {
        '8'
    } else {
        '9'
    }
}

/// The decimal digits of `n`.
pub fn decimal_chars(n: u64) -> (r: Vec<char>)
    ensures
        r@ == decimal_digits(n as nat),
    decreases n,
{
    if n < 10 {
        let mut v: Vec<char> = Vec::new();
        v.push(digit_char_of(n));
        assert(v@ =~= seq![digit_char(n as int)]);
        v
    } else {
        let mut v = decimal_chars(n / 10);
        v.push(digit_char_of(n % 10));
        v
    }
}

/// `s` preceded by zeros up to `width` characters.
pub fn pad_with_zeros(s: &Vec<char>, width: usize) -> (r: Vec<char>)
    ensures
        r@ == zero_padded(s@, width as nat),
{
    let mut r: Vec<char> = Vec::new();
    if s.len() < width {
        let fill = width - s.len();
        let mut i: usize = 0;
        while i < fill
            invariant
                i <= fill,
                r@ == Seq::new(i as nat, |j: int| '0'),
            decreases fill - i,
        {
            r.push('0');
            i += 1;
            assert(r@ =~= Seq::new(i as nat, |j: int| '0'));
        }
    }
    let mut k: usize = 0;
    let ghost start = r@;
    while k < s.len()
        invariant
            k <= s.len(),
            r@ == start + s@.take(k as int),
        decreases s.len() - k,
    {
        r.push(s[k]);
        k += 1;
        assert(r@ =~= start + s@.take(k as int));
    }
    assert(s@.take(s.len() as int) =~= s@);
    assert(r@ =~= zero_padded(s@, width as nat));
    r
}

/// `format!("{}", n)`.
pub fn decimal_string(n: u64) -> (r: String)
    ensures
        r@ == decimal_digits(n as nat),
{
    crate::text::string_from_chars(&decimal_chars(n))
}

/// `format!("{:0w$}", v)` for an `i32`, as characters.
pub fn signed_padded_chars(v: i32, width: usize) -> (r: Vec<char>)
    ensures
        r@ == signed_padded(v as int, width as nat),
{
    if v < 0 {
        let magnitude: u64 = (-(v as i64)) as u64;
        let digits = decimal_chars(magnitude);
        let w = if width > 0 {
            width - 1
        } else {
            0
        };
        let padded = pad_with_zeros(&digits, w);
        let mut r: Vec<char> = Vec::new();
        r.push('-');
        let mut k: usize = 0;
        while k < padded.len()
            invariant
                k <= padded.len(),
                r@ == seq!['-'] + padded@.take(k as int),
            decreases padded.len() - k,
        {
            r.push(padded[k]);
            k += 1;
            assert(r@ =~= seq!['-'] + padded@.take(k as int));
        }
        assert(padded@.take(padded.len() as int) =~= padded@);
        r
    } else {
        let digits = decimal_chars(v as u64);
        pad_with_zeros(&digits, width)
    }
}

} // verus!

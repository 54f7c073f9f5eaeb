//! Character-level helpers shared by the filename grammar and the environment
//! detector: locating separators, splitting, suffix tests, string equality,
//! and decimal digit strings.

use vstd::prelude::*;

verus! {

// ----------------------------------------------------------------------------
// Character classes
// ----------------------------------------------------------------------------

pub open spec fn is_digit_char(c: char) -> bool {
    48 <= c as u32 && c as u32 <= 57
}

/// Value of a decimal digit character.
pub open spec fn digit_val(c: char) -> int {
    c as u32 - 48
}

/// The decimal digit character for a value in 0..=9.
pub open spec fn digit_char(d: int) -> char {
    (48 + d) as char
}

pub open spec fn all_digits(s: Seq<char>) -> bool {
    forall|i: int| 0 <= i < s.len() ==> is_digit_char(#[trigger] s[i])
}

/// Two characters with the same scalar value are the same character.
pub proof fn lemma_char_eq_from_u32(a: char, b: char)
    requires
        a as u32 == b as u32,
    ensures
        a == b,
{
    vstd::utf8::char_u32_cast(a, a as u32);
    vstd::utf8::char_u32_cast(b, b as u32);
}

pub fn is_digit(c: char) -> (r: bool)
    ensures
        r == is_digit_char(c),
{
    let u = c as u32;
    48 <= u && u <= 57
}

// ----------------------------------------------------------------------------
// Finding separators
// ----------------------------------------------------------------------------

/// Index of the first occurrence of `c` in `s`, if any.
pub open spec fn find_first(s: Seq<char>, c: char) -> Option<int>
    decreases s.len(),
{
    if s.len() == 0 {
        None
    } else if s[0] == c {
        Some(0)
    } else {
        match find_first(s.subrange(1, s.len() as int), c) {
            Some(i) => Some(i + 1),
            None => None,
        }
    }
}

/// Index of the last occurrence of `c` in `s`, if any.
pub open spec fn find_last(s: Seq<char>, c: char) -> Option<int>
    decreases s.len(),
{
    if s.len() == 0 {
        None
    } else if s[s.len() - 1] == c {
        Some(s.len() - 1)
    } else {
        find_last(s.subrange(0, s.len() - 1), c)
    }
}

/// `find_first` returns the least index holding `c`, or `None` when `c` does
/// not occur.
pub proof fn lemma_find_first(s: Seq<char>, c: char)
    ensures
        match find_first(s, c) {
            Some(i) => 0 <= i < s.len() && s[i] == c && (forall|j: int| 0 <= j < i ==> s[j] != c),
            None => forall|j: int| 0 <= j < s.len() ==> s[j] != c,
        },
    decreases s.len(),
{
    if s.len() != 0 && s[0] != c {
        let t = s.subrange(1, s.len() as int);
        lemma_find_first(t, c);
        match find_first(t, c) {
            Some(i) => {
                assert(s[i + 1] == t[i]);
                assert forall|j: int| 0 <= j < i + 1 implies s[j] != c by {
                    if j >= 1 {
                        assert(t[j - 1] == s[j]);
                    }
                }
            },
            None => {
                assert forall|j: int| 0 <= j < s.len() implies s[j] != c by {
                    if j >= 1 {
                        assert(t[j - 1] == s[j]);
                    }
                }
            },
        }
    }
}

/// `find_last` returns the greatest index holding `c`, or `None` when `c`
/// does not occur.
pub proof fn lemma_find_last(s: Seq<char>, c: char)
    ensures
        match find_last(s, c) {
            Some(i) => 0 <= i < s.len() && s[i] == c && (forall|j: int|
                i < j < s.len() ==> s[j] != c),
            None => forall|j: int| 0 <= j < s.len() ==> s[j] != c,
        },
    decreases s.len(),
{
    if s.len() != 0 && s[s.len() - 1] != c {
        let t = s.subrange(0, s.len() - 1);
        lemma_find_last(t, c);
        match find_last(t, c) {
            Some(i) => {
                assert(s[i] == t[i]);
                assert forall|j: int| i < j < s.len() implies s[j] != c by {
                    if j < s.len() - 1 {
                        assert(t[j] == s[j]);
                    }
                }
            },
            None => {
                assert forall|j: int| 0 <= j < s.len() implies s[j] != c by {
                    if j < s.len() - 1 {
                        assert(t[j] == s[j]);
                    }
                }
            },
        }
    }
}

/// The parts before and after the first occurrence of `c` in `s`, if any.
pub open spec fn split_first(s: Seq<char>, c: char) -> Option<(Seq<char>, Seq<char>)> {
    match find_first(s, c) {
        Some(i) => Some((s.subrange(0, i), s.subrange(i + 1, s.len() as int))),
        None => None,
    }
}

/// A successful split reassembles to the original string, and the head part
/// is free of the separator.
pub proof fn lemma_split_first(s: Seq<char>, c: char)
    ensures
        split_first(s, c) matches Some(p) ==> {
            &&& s =~= p.0 + seq![c] + p.1
            &&& forall|j: int| 0 <= j < p.0.len() ==> p.0[j] != c
        },
{
    lemma_find_first(s, c);
}

/// Splitting a concatenation at a separator absent from the head recovers
/// the two parts.
pub proof fn lemma_split_first_of_concat(a: Seq<char>, b: Seq<char>, c: char)
    requires
        forall|j: int| 0 <= j < a.len() ==> a[j] != c,
    ensures
        split_first(a + seq![c] + b, c) == Some((a, b)),
{
    let s = a + seq![c] + b;
    lemma_find_first(s, c);
    assert(s[a.len() as int] == c);
    assert forall|j: int| 0 <= j < a.len() implies s[j] != c by {
        assert(s[j] == a[j]);
    }
    match find_first(s, c) {
        Some(i) => {
            assert(i == a.len());
            assert(s.subrange(0, i) =~= a);
            assert(s.subrange(i + 1, s.len() as int) =~= b);
        },
        None => {
            assert(false);
        },
    }
}

/// The last occurrence of a separator absent from the tail part of a
/// concatenation is the separator itself.
pub proof fn lemma_find_last_of_concat(a: Seq<char>, b: Seq<char>, c: char)
    requires
        forall|j: int| 0 <= j < b.len() ==> b[j] != c,
    ensures
        find_last(a + seq![c] + b, c) == Some(a.len() as int),
{
    let s = a + seq![c] + b;
    lemma_find_last(s, c);
    assert(s[a.len() as int] == c);
    assert forall|j: int| a.len() < j < s.len() implies s[j] != c by {
        assert(s[j] == b[j - a.len() - 1]);
    }
    match find_last(s, c) {
        Some(i) => {
            assert(i == a.len());
        },
        None => {
            assert(false);
        },
    }
}

pub fn find_first_in_str(s: &str, c: char) -> (r: Option<usize>)
    ensures
        match r {
            Some(i) => find_first(s@, c) == Some(i as int) && i < s@.len() && s@[i as int] == c
                && (forall|j: int| 0 <= j < i ==> s@[j] != c),
            None => find_first(s@, c) is None,
        },
{
    let n = s.unicode_len();
    let mut i: usize = 0;
    while i < n
        invariant
            i <= n,
            n == s@.len(),
            forall|j: int| 0 <= j < i ==> s@[j] != c,
        decreases n - i,
    {
        if s.get_char(i) == c {
            proof {
                lemma_find_first(s@, c);
            }
            return Some(i);
        }
        i += 1;
    }
    proof {
        lemma_find_first(s@, c);
    }
    None
}

pub fn find_last_in_str(s: &str, c: char) -> (r: Option<usize>)
    ensures
        match r {
            Some(i) => find_last(s@, c) == Some(i as int) && i < s@.len() && s@[i as int] == c
                && (forall|j: int| i < j < s@.len() ==> s@[j] != c),
            None => find_last(s@, c) is None,
        },
{
    let n = s.unicode_len();
    let mut i: usize = n;
    while i > 0
        invariant
            i <= n,
            n == s@.len(),
            forall|j: int| i <= j < n ==> s@[j] != c,
        decreases i,
    {
        i -= 1;
        if s.get_char(i) == c {
            proof {
                lemma_find_last(s@, c);
            }
            return Some(i);
        }
    }
    proof {
        lemma_find_last(s@, c);
    }
    None
}

/// Splits `s` at the first occurrence of `c`, dropping the separator.
pub fn split_first_str<'a>(s: &'a str, c: char) -> (r: Option<(&'a str, &'a str)>)
    ensures
        match r {
            Some(p) => split_first(s@, c) matches Some(q) && p.0@ == q.0 && p.1@ == q.1,
            None => split_first(s@, c) is None,
        },
{
    let n = s.unicode_len();
    match find_first_in_str(s, c) {
        Some(i) => {
            let head = s.substring_char(0, i);
            let tail = s.substring_char(i + 1, n);
            Some((head, tail))
        },
        None => None,
    }
}

// ----------------------------------------------------------------------------
// Equality and suffixes
// ----------------------------------------------------------------------------

pub fn eq_str(a: &str, b: &str) -> (r: bool)
    ensures
        r == (a@ == b@),
{
    let an = a.unicode_len();
    let bn = b.unicode_len();
    if an != bn {
        return false;
    }
    let mut i: usize = 0;
    while i < an
        invariant
            i <= an,
            an == a@.len(),
            an == b@.len(),
            forall|j: int| 0 <= j < i ==> a@[j] == b@[j],
        decreases an - i,
    {
        if a.get_char(i) != b.get_char(i) {
            return false;
        }
        i += 1;
    }
    proof {
        assert(a@ =~= b@);
    }
    true
}

pub open spec fn ends_with(s: Seq<char>, suffix: Seq<char>) -> bool {
    suffix.len() <= s.len() && s.subrange(s.len() - suffix.len(), s.len() as int) == suffix
}

pub fn ends_with_str(s: &str, suffix: &str) -> (r: bool)
    ensures
        r == ends_with(s@, suffix@),
{
    let n = s.unicode_len();
    let m = suffix.unicode_len();
    if m > n {
        return false;
    }
    let tail = s.substring_char(n - m, n);
    eq_str(tail, suffix)
}

// ----------------------------------------------------------------------------
// Decimal digit strings
// ----------------------------------------------------------------------------

/// Numeric value of a digit string, most significant digit first.
pub open spec fn digits_val(s: Seq<char>) -> int
    decreases s.len(),
{
    if s.len() == 0 {
        0
    } else {
        digits_val(s.subrange(0, s.len() - 1)) * 10 + digit_val(s[s.len() - 1])
    }
}

pub open spec fn pow10(n: nat) -> int
    decreases n,
{
    if n == 0 {
        1
    } else {
        10 * pow10((n - 1) as nat)
    }
}

pub proof fn lemma_pow10_pos(n: nat)
    ensures
        0 < pow10(n),
    decreases n,
{
    if n > 0 {
        lemma_pow10_pos((n - 1) as nat);
    }
}

pub proof fn lemma_pow10_mono(a: nat, b: nat)
    requires
        a <= b,
    ensures
        0 < pow10(a) <= pow10(b),
    decreases b,
{
    lemma_pow10_pos(a);
    if a < b {
        lemma_pow10_mono(a, (b - 1) as nat);
        lemma_pow10_pos((b - 1) as nat);
    }
}

pub proof fn lemma_pow10_18()
    ensures
        pow10(18) == 1000000000000000000,
{
    assert(pow10(0) == 1);
    assert(pow10(1) == 10);
    assert(pow10(2) == 100);
    assert(pow10(3) == 1000);
    assert(pow10(4) == 10000);
    assert(pow10(5) == 100000);
    assert(pow10(6) == 1000000);
    assert(pow10(7) == 10000000);
    assert(pow10(8) == 100000000);
    assert(pow10(9) == 1000000000);
    assert(pow10(10) == 10000000000);
    assert(pow10(11) == 100000000000);
    assert(pow10(12) == 1000000000000);
    assert(pow10(13) == 10000000000000);
    assert(pow10(14) == 100000000000000);
    assert(pow10(15) == 1000000000000000);
    assert(pow10(16) == 10000000000000000);
    assert(pow10(17) == 100000000000000000);
    assert(pow10(18) == 1000000000000000000);
}

/// The value of a digit string is bounded by the power of ten of its length.
pub proof fn lemma_digits_val_bound(s: Seq<char>)
    requires
        all_digits(s),
    ensures
        0 <= digits_val(s) < pow10(s.len()),
    decreases s.len(),
{
    if s.len() > 0 {
        let prefix = s.subrange(0, s.len() - 1);
        assert(all_digits(prefix));
        lemma_digits_val_bound(prefix);
    }
}

/// Digit string of a positive number; empty for zero.
pub open spec fn digits_of_pos(n: int) -> Seq<char>
    decreases n,
{
    if n <= 0 {
        Seq::empty()
    } else {
        digits_of_pos(n / 10).push(digit_char(n % 10))
    }
}

/// Canonical decimal digit string of a non-negative number.
pub open spec fn dec_digits(n: int) -> Seq<char> {
    if n == 0 {
        seq!['0']
    } else {
        digits_of_pos(n)
    }
}

/// A digit string without a leading zero is the canonical digit string of its
/// own value.
pub proof fn lemma_dec_digits_val(s: Seq<char>)
    requires
        all_digits(s),
        s.len() >= 1,
        s[0] != '0' || s.len() == 1,
    ensures
        digits_val(s) >= 0,
        dec_digits(digits_val(s)) == s,
    decreases s.len(),
{
    lemma_digits_val_bound(s);
    if s.len() == 1 {
        let c = s[0];
        let v = digit_val(c);
        assert(digits_val(s) == digits_val(s.subrange(0, 0)) * 10 + v);
        assert(digits_val(s) == v);
        if v == 0 {
            assert(c as u32 == 48);
            lemma_char_eq_from_u32(c, '0');
            assert(dec_digits(0) =~= s);
        } else {
            assert(digits_of_pos(v) == digits_of_pos(v / 10).push(digit_char(v % 10)));
            assert(v / 10 == 0 && v % 10 == v);
            assert(digit_char(v) as u32 == 48 + v);
            lemma_char_eq_from_u32(digit_char(v), c);
            assert(dec_digits(v) =~= s);
        }
    } else {
        let prefix = s.subrange(0, s.len() - 1);
        let c = s[s.len() - 1];
        let d = digit_val(c);
        assert(all_digits(prefix));
        assert(prefix[0] == s[0]);
        lemma_dec_digits_val(prefix);
        let vp = digits_val(prefix);
        let v = digits_val(s);
        assert(v == vp * 10 + d);
        if vp == 0 {
            // The induction hypothesis would make the prefix the one-character
            // string "0", contradicting the leading-zero restriction.
            assert(dec_digits(0) == seq!['0']);
            assert(prefix == seq!['0']);
            assert(prefix[0] == '0');
            assert(false);
        }
        assert(v > 0);
        assert(v / 10 == vp && v % 10 == d) by {
            assert(0 <= d < 10);
        };
        assert(digits_of_pos(v) == digits_of_pos(vp).push(digit_char(d)));
        assert(digits_of_pos(vp) == prefix);
        assert(digit_char(d) as u32 == 48 + d);
        lemma_char_eq_from_u32(digit_char(d), c);
        assert(prefix.push(c) =~= s);
    }
}

/// Reads a decimal digit string of at most 18 digits into a number.
pub fn parse_digits(s: &str) -> (r: Option<u64>)
    ensures
        match r {
            Some(v) => 1 <= s@.len() <= 18 && all_digits(s@) && v as int == digits_val(s@),
            None => !(1 <= s@.len() <= 18 && all_digits(s@)),
        },
{
    let n = s.unicode_len();
    if n == 0 || n > 18 {
        return None;
    }
    let mut acc: u64 = 0;
    let mut i: usize = 0;
    while i < n
        invariant
            i <= n,
            1 <= n <= 18,
            n == s@.len(),
            all_digits(s@.subrange(0, i as int)),
            acc as int == digits_val(s@.subrange(0, i as int)),
            (acc as int) < pow10(i as nat),
        decreases n - i,
    {
        let c = s.get_char(i);
        if !is_digit(c) {
            assert(!all_digits(s@)) by {
                assert(s@[i as int] == c);
            };
            return None;
        }
        let d: u64 = (c as u32 - 48) as u64;
        proof {
            lemma_pow10_mono((i + 1) as nat, 18);
            lemma_pow10_18();
            assert(s@.subrange(0, (i + 1) as int).subrange(0, i as int) =~= s@.subrange(
                0,
                i as int,
            ));
            assert(digits_val(s@.subrange(0, (i + 1) as int)) == digits_val(
                s@.subrange(0, i as int),
            ) * 10 + digit_val(s@[i as int]));
        }
        acc = acc * 10 + d;
        i += 1;
    }
    proof {
        assert(s@.subrange(0, n as int) =~= s@);
    }
    Some(acc)
}

/// The decimal digit string of a number, most significant digit first.
pub fn u64_to_string(n: u64) -> (r: String)
    ensures
        r@ == dec_digits(n as int),
{
    if n == 0 {
        let r = String::from_str(digit_str(0));
        proof {
            assert(r@ =~= dec_digits(0));
        }
        return r;
    }
    let mut m: u64 = n;
    let mut s = String::new();
    while m > 0
        invariant
            digits_of_pos(n as int) =~= digits_of_pos(m as int) + s@,
        decreases m,
    {
        let d = m % 10;
        let rest = m / 10;
        let mut t = String::from_str(digit_str(d));
        t.append(s.as_str());
        proof {
            assert(digits_of_pos(m as int) == digits_of_pos(m as int / 10).push(
                digit_char(m as int % 10),
            ));
            assert(digits_of_pos(m as int / 10) + seq![digit_char(m as int % 10)] =~= digits_of_pos(
                m as int,
            ));
            assert(digits_of_pos(n as int) =~= digits_of_pos(rest as int) + t@);
        }
        s = t;
        m = rest;
    }
    proof {
        assert(digits_of_pos(0) =~= Seq::<char>::empty());
        assert(s@ =~= digits_of_pos(n as int));
    }
    s
}

/// The one-character string for a decimal digit value.
fn digit_str(d: u64) -> (r: &'static str)
    requires
        d < 10,
    ensures
        r@ == seq![digit_char(d as int)],
{
    if d == 0 {
        proof { reveal_strlit("0"); }
        assert("0"@ =~= seq![digit_char(0)]);
        "0"
    } else if d == 1 {
        proof { reveal_strlit("1"); }
        assert("1"@ =~= seq![digit_char(1)]);
        "1"
    } else if d == 2 {
        proof { reveal_strlit("2"); }
        assert("2"@ =~= seq![digit_char(2)]);
        "2"
    } else if d == 3 {
        proof { reveal_strlit("3"); }
        assert("3"@ =~= seq![digit_char(3)]);
        "3"
    } else if d == 4 {
        proof { reveal_strlit("4"); }
        assert("4"@ =~= seq![digit_char(4)]);
        "4"
    } else if d == 5 {
        proof { reveal_strlit("5"); }
        assert("5"@ =~= seq![digit_char(5)]);
        "5"
    } else if d == 6 {
        proof { reveal_strlit("6"); }
        assert("6"@ =~= seq![digit_char(6)]);
        "6"
    } else if d == 7 {
        proof { reveal_strlit("7"); }
        assert("7"@ =~= seq![digit_char(7)]);
        "7"
    } else if d == 8 {
        proof { reveal_strlit("8"); }
        assert("8"@ =~= seq![digit_char(8)]);
        "8"
    } else {
        proof { reveal_strlit("9"); }
        assert("9"@ =~= seq![digit_char(9)]);
        "9"
    }
}

} // verus!

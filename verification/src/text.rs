//! Comparisons on text, stated over sequences of characters.

use vstd::prelude::*;
use vstd::string::StrSliceExecFns;
use vstd::string::StringExecFns;

verus! {

/// `p` is a prefix of `s`.
pub open spec fn is_prefix(p: Seq<char>, s: Seq<char>) -> bool {
    p.len() <= s.len() && s.subrange(0, p.len() as int) == p
}

/// `p` is a suffix of `s`.
pub open spec fn is_suffix(p: Seq<char>, s: Seq<char>) -> bool {
    p.len() <= s.len() && s.subrange(s.len() - p.len(), s.len() as int) == p
}

/// Lexicographic order by code point on the parts of `a` and `b` from index `i` on.
pub open spec fn lex_lt_from(a: Seq<char>, b: Seq<char>, i: int) -> bool
    decreases a.len() - i,
{
    if i < 0 || i >= b.len() {
        false
    } else if i >= a.len() {
        true
    } else if (a[i] as int) < (b[i] as int) {
        true
    } else if (a[i] as int) > (b[i] as int) {
        false
    } else {
        lex_lt_from(a, b, i + 1)
    }
}

/// `a` sorts strictly before `b` in lexicographic order by code point.
pub open spec fn lex_lt(a: Seq<char>, b: Seq<char>) -> bool {
    lex_lt_from(a, b, 0)
}

/// Nothing sorts before itself.
pub proof fn lemma_lex_irreflexive(a: Seq<char>, i: int)
    requires
        0 <= i,
    ensures
        !lex_lt_from(a, a, i),
    decreases a.len() - i,
{
    if i < a.len() {
        lemma_lex_irreflexive(a, i + 1);
    }
}

/// Two texts that agree before `i` and of which neither sorts before the
/// other from `i` on are the same text.
pub proof fn lemma_lex_total(a: Seq<char>, b: Seq<char>, i: int)
    requires
        0 <= i <= a.len(),
        i <= b.len(),
        a.subrange(0, i) == b.subrange(0, i),
        !lex_lt_from(a, b, i),
        !lex_lt_from(b, a, i),
    ensures
        a == b,
    decreases a.len() - i,
{
    if i >= a.len() || i >= b.len() {
        assert(a.len() == b.len());
        assert(a.subrange(0, i) == a);
        assert(b.subrange(0, i) == b);
    } else {
        assert(a[i] as int == b[i] as int);
        assert(a[i] == b[i]);
        assert(a.subrange(0, i + 1) =~= a.subrange(0, i).push(a[i]));
        assert(b.subrange(0, i + 1) =~= b.subrange(0, i).push(b[i]));
        lemma_lex_total(a, b, i + 1);
    }
}

/// The order is transitive, from any common starting index.
pub proof fn lemma_lex_transitive(a: Seq<char>, b: Seq<char>, c: Seq<char>, i: int)
    requires
        0 <= i,
        lex_lt_from(a, b, i),
        lex_lt_from(b, c, i),
    ensures
        lex_lt_from(a, c, i),
    decreases a.len() - i,
{
    if i < a.len() && i < b.len() && i < c.len() {
        if a[i] as int == b[i] as int && b[i] as int == c[i] as int {
            lemma_lex_transitive(a, b, c, i + 1);
        }
    }
}

/// Of two texts one sorts before the other, or they are the same.
pub proof fn lemma_lex_trichotomy(a: Seq<char>, b: Seq<char>)
    ensures
        lex_lt(a, b) || lex_lt(b, a) || a == b,
        !(lex_lt(a, b) && a == b),
{
    lemma_lex_irreflexive(a, 0);
    if !lex_lt(a, b) && !lex_lt(b, a) {
        assert(a.subrange(0, 0) =~= b.subrange(0, 0));
        lemma_lex_total(a, b, 0);
    }
}

/// Of two texts at most one sorts before the other.
pub proof fn lemma_lex_asymmetric(a: Seq<char>, b: Seq<char>)
    requires
        lex_lt(a, b),
    ensures
        !lex_lt(b, a),
{
    if lex_lt(b, a) {
        lemma_lex_transitive(a, b, a, 0);
        lemma_lex_irreflexive(a, 0);
    }
}

/// What sorts no later than a text that sorts before `c` sorts before `c`.
pub proof fn lemma_lex_le_lt(a: Seq<char>, b: Seq<char>, c: Seq<char>)
    requires
        !lex_lt(b, a),
        lex_lt(b, c),
    ensures
        lex_lt(a, c),
{
    lemma_lex_trichotomy(a, b);
    if a != b {
        lemma_lex_transitive(a, b, c, 0);
    }
}

/// Whether two texts hold the same characters.
pub fn str_eq(a: &str, b: &str) -> (r: bool)
    ensures
        r == (a@ == b@),
{
    let x = String::from_str(a);
    let y = String::from_str(b);
    x == y
}

/// Whether `s` begins with `prefix`.
pub fn starts_with(s: &str, prefix: &str) -> (r: bool)
    ensures
        r == is_prefix(prefix@, s@),
{
    let n: usize = s.unicode_len();
    let m: usize = prefix.unicode_len();
    if m > n {
        return false;
    }
    let head = s.substring_char(0, m);
    str_eq(head, prefix)
}

/// Whether `s` ends with `suffix`.
pub fn ends_with(s: &str, suffix: &str) -> (r: bool)
    ensures
        r == is_suffix(suffix@, s@),
{
    let n: usize = s.unicode_len();
    let m: usize = suffix.unicode_len();
    if m > n {
        return false;
    }
    let tail = s.substring_char(n - m, n);
    str_eq(tail, suffix)
}

/// The part of `s` behind its first `n` characters.
pub fn skip_chars(s: &str, n: usize) -> (r: String)
    requires
        n <= s@.len(),
    ensures
        r@ == s@.subrange(n as int, s@.len() as int),
{
    let len: usize = s.unicode_len();
    String::from_str(s.substring_char(n, len))
}

/// Whether `a` sorts strictly before `b`.
pub fn str_lt(a: &str, b: &str) -> (r: bool)
    ensures
        r == lex_lt(a@, b@),
{
    let n: usize = a.unicode_len();
    let m: usize = b.unicode_len();
    let mut i: usize = 0;
    while i < n && i < m
        invariant
            i <= n,
            i <= m,
            n == a@.len(),
            m == b@.len(),
            lex_lt(a@, b@) == lex_lt_from(a@, b@, i as int),
        decreases n - i,
    {
        let x: u32 = a.get_char(i) as u32;
        let y: u32 = b.get_char(i) as u32;
        if x < y {
            return true;
        }
        if x > y {
            return false;
        }
        i = i + 1;
    }
    i < m
}

/// The text of `a`, then that of `b`.
pub fn concat2(a: &str, b: &str) -> (r: String)
    ensures
        r@ == a@ + b@,
{
    String::from_str(a).concat(b)
}

/// The text of `a`, then that of `b`, then that of `c`.
pub fn concat3(a: &str, b: &str, c: &str) -> (r: String)
    ensures
        r@ == a@ + b@ + c@,
{
    String::from_str(a).concat(b).concat(c)
}

/// The value of a decimal digit, if the character is one.
pub open spec fn digit_value(c: char) -> Option<int> {
    if 48 <= c as int <= 57 {
        Some(c as int - 48)
    } else {
        None
    }
}

/// Whether the characters of `s` from `from` on are decimal digits.
pub open spec fn all_digits(s: Seq<char>, from: int) -> bool {
    forall|i: int| from <= i < s.len() ==> digit_value(#[trigger] s[i]) is Some
}

/// The number that the first `n` characters behind `from` spell in decimal digits.
pub open spec fn digits_value(s: Seq<char>, from: int, n: nat) -> int
    decreases n,
{
    if n == 0 {
        0
    } else {
        digits_value(s, from, (n - 1) as nat) * 10 + match digit_value(s[from + n - 1]) {
            Some(d) => d,
            None => 0,
        }
    }
}

/// The whole number that `s` spells: an optional sign and at least one
/// decimal digit, and nothing else. A number that does not fit 64 bits
/// with a sign is not spelled by anything.
pub open spec fn spec_parse_i64(s: Seq<char>) -> Option<i64> {
    let signed = s.len() > 0 && (s[0] == '-' || s[0] == '+');
    let from: int = if signed {
        1
    } else {
        0
    };
    if s.len() <= from || !all_digits(s, from) {
        None
    } else {
        let magnitude = digits_value(s, from, (s.len() - from) as nat);
        let value = if s[0] == '-' {
            -magnitude
        } else {
            magnitude
        };
        if i64::MIN <= value <= i64::MAX {
            Some(value as i64)
        } else {
            None
        }
    }
}

proof fn lemma_digits_nonneg(s: Seq<char>, from: int, n: nat)
    ensures
        0 <= digits_value(s, from, n),
    decreases n,
{
    if n > 0 {
        lemma_digits_nonneg(s, from, (n - 1) as nat);
    }
}

/// Reads a whole number.
pub fn parse_i64(s: &str) -> (r: Option<i64>)
    ensures
        r == spec_parse_i64(s@),
{
    let n: usize = s.unicode_len();
    if n == 0 {
        return None;
    }
    let first: char = s.get_char(0);
    let negative = first == '-';
    let from: usize = if first == '-' || first == '+' {
        1
    } else {
        0
    };
    if n <= from {
        return None;
    }
    // The magnitude, as long as it is at most 2^63; behind that the number does not fit.
    let limit: u64 = 0x8000_0000_0000_0000;
    let mut acc: u64 = 0;
    let mut fits = true;
    let mut i: usize = from;
    while i < n
        invariant
            from <= i <= n,
            n == s@.len(),
            n > from,
            from as int == (if s@[0] == '-' || s@[0] == '+' {
                1int
            } else {
                0int
            }),
            limit == 0x8000_0000_0000_0000,
            forall|j: int| from <= j < i ==> digit_value(#[trigger] s@[j]) is Some,
            fits ==> acc == digits_value(s@, from as int, (i - from) as nat) && acc <= limit,
            !fits ==> digits_value(s@, from as int, (i - from) as nat) > limit,
        decreases n - i,
    {
        let c: char = s.get_char(i);
        let code: u32 = c as u32;
        if !(48 <= code && code <= 57) {
            assert(digit_value(s@[i as int]) is None);
            return None;
        }
        let d: u64 = (code - 48) as u64;
        proof {
            lemma_digits_nonneg(s@, from as int, (i - from) as nat);
            assert(digits_value(s@, from as int, (i + 1 - from) as nat) == digits_value(
                s@,
                from as int,
                (i - from) as nat,
            ) * 10 + d);
        }
        if fits {
            if acc > (limit - d) / 10 {
                fits = false;
            } else {
                acc = acc * 10 + d;
            }
        }
        i = i + 1;
    }
    assert(all_digits(s@, from as int));
    if !fits {
        return None;
    }
    if negative {
        if acc == limit {
            Some(i64::MIN)
        } else {
            let m: i64 = acc as i64;
            Some(-m)
        }
    } else {
        if acc == limit {
            None
        } else {
            Some(acc as i64)
        }
    }
}

/// The value of a hexadecimal digit, if the character is one.
pub open spec fn hex_value(c: char) -> Option<int> {
    if 48 <= c as int <= 57 {
        Some(c as int - 48)
    } else if 97 <= c as int <= 102 {
        Some(c as int - 87)
    } else if 65 <= c as int <= 70 {
        Some(c as int - 55)
    } else {
        None
    }
}

/// The number below 256 that two characters spell in hexadecimal: two
/// digits, or a plus sign and one digit.
pub open spec fn spec_hex_pair(a: char, b: char) -> Option<int> {
    match hex_value(b) {
        None => None,
        Some(low) => if a == '+' {
            Some(low)
        } else {
            match hex_value(a) {
                Some(high) => Some(high * 16 + low),
                None => None,
            }
        },
    }
}

fn hex_digit(c: char) -> (r: Option<u8>)
    ensures
        match r {
            Some(v) => hex_value(c) == Some(v as int),
            None => hex_value(c) is None,
        },
{
    let code: u32 = c as u32;
    if 48 <= code && code <= 57 {
        Some((code - 48) as u8)
    } else if 97 <= code && code <= 102 {
        Some((code - 87) as u8)
    } else if 65 <= code && code <= 70 {
        Some((code - 55) as u8)
    } else {
        None
    }
}

/// Reads two characters as a number below 256 in hexadecimal.
pub fn hex_pair(a: char, b: char) -> (r: Option<u8>)
    ensures
        match r {
            Some(v) => spec_hex_pair(a, b) == Some(v as int),
            None => spec_hex_pair(a, b) is None,
        },
{
    match hex_digit(b) {
        None => None,
        Some(low) => {
            if a == '+' {
                Some(low)
            } else {
                match hex_digit(a) {
                    Some(high) => Some(high * 16 + low),
                    None => None,
                }
            }
        },
    }
}

} // verus!

//! Character classes and scans over character sequences.
use vstd::prelude::*;

verus! {

/// A class of ASCII characters used by the lexical validators.
#[derive(Clone, Copy, Debug, PartialEq, Eq, Structural)]
pub enum CharClass {
    /// `a-z`, `A-Z`, `0-9`.
    Alnum,
    /// Alphanumerics, `-` and `.`: the characters of a host segment.
    Host,
    /// `a-z`, `A-Z` and `.`: the characters of a top-level domain.
    Domain,
    /// `0-9`, `a-f`, `A-F`.
    Hex,
}

pub open spec fn is_letter(c: char) -> bool {
    ('a' <= c && c <= 'z') || ('A' <= c && c <= 'Z')
}

pub open spec fn is_digit(c: char) -> bool {
    '0' <= c && c <= '9'
}

pub open spec fn is_hex_digit(c: char) -> bool {
    is_digit(c) || ('a' <= c && c <= 'f') || ('A' <= c && c <= 'F')
}

pub open spec fn in_class(c: char, k: CharClass) -> bool {
    match k {
        CharClass::Alnum => is_letter(c) || is_digit(c),
        CharClass::Host => is_letter(c) || is_digit(c) || c == '-' || c == '.',
        CharClass::Domain => is_letter(c) || c == '.',
        CharClass::Hex => is_hex_digit(c),
    }
}

/// Every character of `s` at an index in `lo..hi` belongs to class `k`.
pub open spec fn all_in(s: Seq<char>, lo: int, hi: int, k: CharClass) -> bool {
    forall|j: int| lo <= j < hi ==> #[trigger] in_class(s[j], k)
}

/// `a` and `b` are the same character, ignoring the case of ASCII letters.
pub open spec fn same_letter_ci(a: char, b: char) -> bool {
    a == b || (('A' <= a && a <= 'Z') && (b as u32) == (a as u32) + 32) || (('A' <= b && b
        <= 'Z') && (a as u32) == (b as u32) + 32)
}

/// `s` ends with `suffix`.
pub open spec fn ends_with(s: Seq<char>, suffix: Seq<char>) -> bool {
    suffix.len() <= s.len() && s.subrange(s.len() - suffix.len(), s.len() as int) == suffix
}

/// `s` ends with `suffix`, ignoring the case of ASCII letters.
pub open spec fn ends_with_ci(s: Seq<char>, suffix: Seq<char>) -> bool {
    suffix.len() <= s.len() && forall|j: int|
        0 <= j < suffix.len() ==> #[trigger] same_letter_ci(
            suffix[j],
            s[s.len() - suffix.len() + j],
        )
}

pub fn char_in_class(c: char, k: CharClass) -> (r: bool)
    ensures
        r == in_class(c, k),
{
    let letter = ('a' <= c && c <= 'z') || ('A' <= c && c <= 'Z');
    let digit = '0' <= c && c <= '9';
    match k {
        CharClass::Alnum => letter || digit,
        CharClass::Host => letter || digit || c == '-' || c == '.',
        CharClass::Domain => letter || c == '.',
        CharClass::Hex => digit || ('a' <= c && c <= 'f') || ('A' <= c && c <= 'F'),
    }
}

/// The characters of `s`, in order.
pub fn chars_of(s: &str) -> (r: Vec<char>)
    ensures
        r@ == s@,
{
    let n = s.unicode_len();
    let mut r: Vec<char> = Vec::new();
    let mut i: usize = 0;
    while i < n
        invariant
            n == s@.len(),
            i <= n,
            r@ == s@.subrange(0, i as int),
        decreases n - i,
    {
        r.push(s.get_char(i));
        i = i + 1;
    }
    assert(r@ =~= s@);
    r
}

/// Whether every character of `cs` at an index in `lo..hi` belongs to `k`.
pub fn all_in_class(cs: &Vec<char>, lo: usize, hi: usize, k: CharClass) -> (r: bool)
    requires
        lo <= hi <= cs@.len(),
    ensures
        r == all_in(cs@, lo as int, hi as int, k),
{
    let mut i: usize = lo;
    while i < hi
        invariant
            lo <= i <= hi <= cs@.len(),
            all_in(cs@, lo as int, i as int, k),
        decreases hi - i,
    {
        if !char_in_class(cs[i], k) {
            return false;
        }
        i = i + 1;
    }
    true
}

pub fn same_letter_ignoring_case(a: char, b: char) -> (r: bool)
    ensures
        r == same_letter_ci(a, b),
{
    let x = a as u32;
    let y = b as u32;
    a == b || (('A' <= a && a <= 'Z') && y == x + 32) || (('A' <= b && b <= 'Z') && x == y + 32)
}

/// Whether `s` ends with `suffix`.
pub fn has_suffix(s: &Vec<char>, suffix: &Vec<char>) -> (r: bool)
    ensures
        r == ends_with(s@, suffix@),
{
    let n = s.len();
    let m = suffix.len();
    if m > n {
        return false;
    }
    let base = n - m;
    let mut j: usize = 0;
    while j < m
        invariant
            n == s@.len(),
            m == suffix@.len(),
            base == n - m,
            j <= m,
            forall|t: int| 0 <= t < j ==> s@[base + t] == suffix@[t],
        decreases m - j,
    {
        if s[base + j] != suffix[j] {
            assert(s@.subrange(base as int, n as int)[j as int] != suffix@[j as int]);
            return false;
        }
        j = j + 1;
    }
    assert(s@.subrange(base as int, n as int) =~= suffix@);
    true
}

/// Whether `s` ends with `suffix`, ignoring the case of ASCII letters.
pub fn has_suffix_ignoring_case(s: &Vec<char>, suffix: &Vec<char>) -> (r: bool)
    ensures
        r == ends_with_ci(s@, suffix@),
{
    let n = s.len();
    let m = suffix.len();
    if m > n {
        return false;
    }
    let base = n - m;
    let mut j: usize = 0;
    while j < m
        invariant
            n == s@.len(),
            m == suffix@.len(),
            base == n - m,
            j <= m,
            forall|t: int| 0 <= t < j ==> #[trigger] same_letter_ci(suffix@[t], s@[base + t]),
        decreases m - j,
    {
        if !same_letter_ignoring_case(suffix[j], s[base + j]) {
            return false;
        }
        j = j + 1;
    }
    true
}

} // verus!

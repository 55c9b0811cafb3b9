//! Lexical validation of URL-like strings, with an optional whitelist of
//! top-level domains.
use vstd::prelude::*;
use crate::chars::{
    all_in, all_in_class, chars_of, char_in_class, ends_with_ci, has_suffix_ignoring_case,
    in_class, is_letter, CharClass,
};

verus! {

/// `s[lo..hi]` is a top-level domain: letters and periods, at least two
/// characters, ending in a letter.
pub open spec fn domain_span(s: Seq<char>, lo: int, hi: int) -> bool {
    hi - lo >= 2 && all_in(s, lo, hi - 1, CharClass::Domain) && is_letter(s[hi - 1])
}

/// `s[lo..]` splits at the period `s[i]` into a host segment of at least
/// three host characters and a top-level domain.
pub open spec fn host_split(s: Seq<char>, lo: int, i: int) -> bool {
    lo + 3 <= i < s.len() && s[i] == '.' && all_in(s, lo, i, CharClass::Host) && domain_span(
        s,
        i + 1,
        s.len() as int,
    )
}

/// `s[lo..]` is a host segment, a period and a top-level domain.
pub open spec fn host_and_domain(s: Seq<char>, lo: int) -> bool {
    exists|i: int| host_split(s, lo, i)
}

/// `s[..k + 3]` is a scheme of one or more alphanumerics followed by `://`.
pub open spec fn scheme_prefix(s: Seq<char>, k: int) -> bool {
    1 <= k && k + 3 <= s.len() && all_in(s, 0, k, CharClass::Alnum) && s[k] == ':' && s[k + 1]
        == '/' && s[k + 2] == '/'
}

/// `s` has the shape of a URL: an optional scheme, then a host segment and a
/// top-level domain.
pub open spec fn url_shape(s: Seq<char>) -> bool {
    host_and_domain(s, 0) || exists|k: int| scheme_prefix(s, k) && host_and_domain(s, k + 3)
}

/// `t` is a whitelist entry: a period followed by a top-level domain.
pub open spec fn domain_token(t: Seq<char>) -> bool {
    t.len() >= 1 && t[0] == '.' && domain_span(t, 1, t.len() as int)
}

/// The verdict on `url` under an optional whitelist: every entry must be a
/// well-formed domain token, `url` must end with one of them (ignoring the
/// case of letters), and `url` must have the shape of a URL.
pub open spec fn url_accepted(url: Seq<char>, whitelist: Option<Seq<Seq<char>>>) -> bool {
    match whitelist {
        None => url_shape(url),
        Some(w) => (forall|i: int| 0 <= i < w.len() ==> #[trigger] domain_token(w[i])) && (exists|
            i: int,
        | 0 <= i < w.len() && #[trigger] ends_with_ci(url, w[i])) && url_shape(url),
    }
}

pub open spec fn whitelist_view(whitelist: Option<&[&str]>) -> Option<Seq<Seq<char>>> {
    match whitelist {
        None => None,
        Some(w) => Some(w@.map_values(|e: &str| e@)),
    }
}

fn domain_span_exec(cs: &Vec<char>, lo: usize, hi: usize) -> (r: bool)
    requires
        lo <= hi <= cs@.len(),
    ensures
        r == domain_span(cs@, lo as int, hi as int),
{
    if hi - lo < 2 {
        return false;
    }
    let last = cs[hi - 1];
    all_in_class(cs, lo, hi - 1, CharClass::Domain) && char_in_class(last, CharClass::Domain)
        && last != '.'
}

fn host_and_domain_exec(cs: &Vec<char>, lo: usize) -> (r: bool)
    requires
        lo <= cs@.len(),
    ensures
        r == host_and_domain(cs@, lo as int),
{
    let n = cs.len();
    if n - lo < 3 {
        return false;
    }
    let mut i: usize = lo + 3;
    while i < n
        invariant
            n == cs@.len(),
            lo + 3 <= i <= n,
            forall|j: int| lo <= j < i ==> !#[trigger] host_split(cs@, lo as int, j),
        decreases n - i,
    {
        if cs[i] == '.' && all_in_class(cs, lo, i, CharClass::Host) && domain_span_exec(
            cs,
            i + 1,
            n,
        ) {
            assert(host_split(cs@, lo as int, i as int));
            return true;
        }
        i = i + 1;
    }
    assert forall|j: int| !#[trigger] host_split(cs@, lo as int, j) by {
        if lo <= j < i {
        }
    }
    false
}

fn url_shape_exec(cs: &Vec<char>) -> (r: bool)
    ensures
        r == url_shape(cs@),
{
    if host_and_domain_exec(cs, 0) {
        return true;
    }
    let n = cs.len();
    let mut k: usize = 0;
    while k < n && char_in_class(cs[k], CharClass::Alnum)
        invariant
            n == cs@.len(),
            k <= n,
            all_in(cs@, 0, k as int, CharClass::Alnum),
        decreases n - k,
    {
        k = k + 1;
    }
    // `k` is the first index that holds no alphanumeric, so no other index
    // can end a scheme.
    assert forall|k2: int| #[trigger] scheme_prefix(cs@, k2) implies k2 == k by {
        if k2 < k {
            assert(in_class(cs@[k2], CharClass::Alnum));
        } else if k2 > k {
            assert(in_class(cs@[k as int], CharClass::Alnum));
        }
    }
    if k >= 1 && n - k >= 3 && cs[k] == ':' && cs[k + 1] == '/' && cs[k + 2] == '/' {
        assert(scheme_prefix(cs@, k as int));
        host_and_domain_exec(cs, k + 3)
    } else {
        false
    }
}

/// Whether `url` has the shape of a URL and, where a whitelist is given,
/// every entry of it is a well-formed domain token (a period, then letters
/// and periods ending in a letter) and `url` ends with one of them, ignoring
/// the case of letters. A malformed entry rejects every URL.
pub fn validate_url(url: &str, whitelist: Option<&[&str]>) -> (r: bool)
    ensures
        r == url_accepted(url@, whitelist_view(whitelist)),
{
    let cs = chars_of(url);
    match whitelist {
        None => url_shape_exec(&cs),
        Some(w) => {
            let ghost wv = w@.map_values(|e: &str| e@);
            let mut i: usize = 0;
            let mut any_suffix = false;
            while i < w.len()
                invariant
                    i <= w@.len(),
                    wv == w@.map_values(|e: &str| e@),
                    wv.len() == w@.len(),
                    whitelist_view(whitelist) == Some(wv),
                    cs@ == url@,
                    forall|j: int| 0 <= j < i ==> #[trigger] domain_token(wv[j]),
                    any_suffix == exists|j: int| 0 <= j < i && #[trigger] ends_with_ci(url@, wv[j]),
                decreases w@.len() - i,
            {
                let entry = chars_of(w[i]);
                assert(entry@ == wv[i as int]);
                let n = entry.len();
                if !(n >= 1 && entry[0] == '.' && domain_span_exec(&entry, 1, n)) {
                    assert(!domain_token(wv[i as int]));
                    assert(!url_accepted(url@, whitelist_view(whitelist)));
                    return false;
                }
                if has_suffix_ignoring_case(&cs, &entry) {
                    any_suffix = true;
                }
                i = i + 1;
            }
            any_suffix && url_shape_exec(&cs)
        },
    }
}

} // verus!

//! Content identifiers: their derivation from bytes, their lexical form, and
//! the check that a stored file still has the content an identifier names.
use vstd::prelude::*;
use crate::chars::{chars_of, char_in_class, is_digit, is_hex_digit, CharClass};

verus! {

/// The namespace under which identifiers are derived: the nil UUID, fixed so
/// that the same bytes give the same identifier on every run and machine.
pub const IDENTIFIER_NAMESPACE: u128 = 0;

/// The hyphenated lower-case text of the name-based (SHA-1, version 5) UUID
/// of `name` under `namespace`.
pub uninterp spec fn v5_identifier_of(namespace: u128, name: Seq<u8>) -> Seq<char>;

/// The identifier of a buffer.
pub open spec fn content_identifier(contents: Seq<u8>) -> Seq<char> {
    v5_identifier_of(IDENTIFIER_NAMESPACE, contents)
}

pub open spec fn is_hyphen_position(i: int) -> bool {
    i == 8 || i == 13 || i == 18 || i == 23
}

/// Five groups of 8, 4, 4, 4 and 12 hexadecimal digits of either case,
/// separated by single hyphens, and nothing else.
pub open spec fn well_formed_identifier(s: Seq<char>) -> bool {
    s.len() == 36 && forall|i: int|
        0 <= i < 36 ==> if is_hyphen_position(i) {
            #[trigger] s[i] == '-'
        } else {
            is_hex_digit(s[i])
        }
}

/// The canonical form: well formed, with lower-case digits only.
pub open spec fn canonical_identifier(s: Seq<char>) -> bool {
    s.len() == 36 && forall|i: int|
        0 <= i < 36 ==> if is_hyphen_position(i) {
            #[trigger] s[i] == '-'
        } else {
            is_digit(s[i]) || ('a' <= s[i] && s[i] <= 'f')
        }
}

/// Relies on `uuid::Uuid::new_v5` for the version 5 UUID of `name` under
/// `namespace` (taken by `Uuid::from_u128`), and on its hyphenated
/// formatter, which writes 36 characters: hyphens at indices 8, 13, 18 and
/// 23, lower-case hexadecimal digits elsewhere.
#[verifier::external_body]
fn v5_hyphenated(namespace: u128, name: &[u8]) -> (r: String)
    ensures
        r@ == v5_identifier_of(namespace, name@),
        canonical_identifier(r@),
{
    uuid::Uuid::new_v5(&uuid::Uuid::from_u128(namespace), name).as_hyphenated().to_string()
}

/// Derives the identifier of a buffer: a function of the bytes alone, in
/// canonical form.
pub fn derive_identifier(contents: &[u8]) -> (r: String)
    ensures
        r@ == content_identifier(contents@),
        canonical_identifier(r@),
        well_formed_identifier(r@),
{
    let r = v5_hyphenated(IDENTIFIER_NAMESPACE, contents);
    proof {
        lemma_canonical_is_well_formed(r@);
    }
    r
}

/// Whether `s` is a well-formed identifier, in either case.
pub fn validate_uuid(s: &str) -> (r: bool)
    ensures
        r == well_formed_identifier(s@),
{
    let cs = chars_of(s);
    if cs.len() != 36 {
        return false;
    }
    let mut i: usize = 0;
    while i < 36
        invariant
            cs@ == s@,
            cs@.len() == 36,
            i <= 36,
            forall|j: int|
                0 <= j < i ==> if is_hyphen_position(j) {
                    #[trigger] cs@[j] == '-'
                } else {
                    is_hex_digit(cs@[j])
                },
        decreases 36 - i,
    {
        let c = cs[i];
        let ok = if i == 8 || i == 13 || i == 18 || i == 23 {
            c == '-'
        } else {
            char_in_class(c, CharClass::Hex)
        };
        if !ok {
            assert(!well_formed_identifier(s@) || cs@[i as int] != c);
            return false;
        }
        i = i + 1;
    }
    true
}

/// Whether `identifier` is the identifier `derived` that was computed from a
/// file's current contents; the comparison is exact.
pub fn identifier_matches(identifier: &str, derived: &str) -> (r: bool)
    ensures
        r == (identifier@ == derived@),
{
    let a = chars_of(identifier);
    let b = chars_of(derived);
    if a.len() != b.len() {
        return false;
    }
    let mut i: usize = 0;
    while i < a.len()
        invariant
            a@ == identifier@,
            b@ == derived@,
            a@.len() == b@.len(),
            i <= a@.len(),
            forall|j: int| 0 <= j < i ==> a@[j] == b@[j],
        decreases a@.len() - i,
    {
        if a[i] != b[i] {
            return false;
        }
        i = i + 1;
    }
    assert(a@ =~= b@);
    true
}

/// `identifier` names the buffer `contents`.
pub open spec fn identifies(identifier: Seq<char>, contents: Seq<u8>) -> bool {
    identifier == content_identifier(contents)
}

/// Whether `identifier` is the identifier of `contents`, the current bytes
/// of the file that it was registered for.
pub fn validate_file_with_uuid(identifier: &str, contents: &[u8]) -> (r: bool)
    ensures
        r == identifies(identifier@, contents@),
{
    let derived = derive_identifier(contents);
    identifier_matches(identifier, derived.as_str())
}

/// An identifier in canonical form is well formed.
pub proof fn lemma_canonical_is_well_formed(s: Seq<char>)
    requires
        canonical_identifier(s),
    ensures
        well_formed_identifier(s),
{
    assert forall|i: int| 0 <= i < 36 && !is_hyphen_position(i) implies is_hex_digit(s[i]) by {
        assert(0 <= i < 36 ==> if is_hyphen_position(i) {
            s[i] == '-'
        } else {
            is_digit(s[i]) || ('a' <= s[i] && s[i] <= 'f')
        });
    }
}

/// The identifier is determined by the bytes alone: byte-identical contents,
/// under whatever names, get the same identifier, and each buffer checks
/// against its own identifier.
pub proof fn lemma_same_contents_same_identifier(a: Seq<u8>, b: Seq<u8>)
    requires
        a == b,
    ensures
        content_identifier(a) == content_identifier(b),
        identifies(content_identifier(a), b),
{
}

/// Removing any one character from a well-formed identifier, a hyphen or a
/// digit of a group, leaves a string that is not well formed.
pub proof fn lemma_removal_rejected(s: Seq<char>, i: int)
    requires
        well_formed_identifier(s),
        0 <= i < s.len(),
    ensures
        !well_formed_identifier(s.remove(i)),
{
}

/// Putting any character that is not a hexadecimal digit in place of a
/// character of a well-formed identifier, other than a hyphen where a hyphen
/// stands, leaves a string that is not well formed.
pub proof fn lemma_substitution_rejected(s: Seq<char>, i: int, c: char)
    requires
        well_formed_identifier(s),
        0 <= i < s.len(),
        !is_hex_digit(c),
        c != s[i],
    ensures
        !well_formed_identifier(s.update(i, c)),
{
    let t = s.update(i, c);
    assert(t[i] == c);
    if is_hyphen_position(i) {
        assert(s[i] == '-');
    }
}

} // verus!

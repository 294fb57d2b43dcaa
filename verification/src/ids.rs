//! Identifiers: twenty-six characters of Crockford base32.

use vstd::prelude::*;

use crate::text;

verus! {

/// The characters of an identifier: digits and capitals without I, L, O and U.
pub open spec fn is_crockford(c: char) -> bool {
    text::is_digit(c) || ('A' <= c <= 'Z' && c != 'I' && c != 'L' && c != 'O' && c != 'U')
}

/// Whether a text has the form of an identifier.
pub open spec fn is_ulid(s: Seq<char>) -> bool {
    s.len() == 26 && forall|i: int| 0 <= i < s.len() ==> is_crockford(#[trigger] s[i])
}

/// Whether a text has the form of an identifier. What does cannot forge a line
/// of the log: it has no space, no newline and no control character.
pub fn is_id(s: &str) -> (b: bool)
    ensures
        b == is_ulid(s@),
{
    let v = text::chars_of(s);
    if v.len() != 26 {
        return false;
    }
    let mut i: usize = 0;
    while i < v.len()
        invariant
            v@ == s@,
            i <= v@.len(),
            forall|k: int| 0 <= k < i ==> is_crockford(#[trigger] v@[k]),
        decreases v@.len() - i,
    {
        let c = v[i];
        if !(('0' <= c && c <= '9') || ('A' <= c && c <= 'Z' && c != 'I' && c != 'L' && c != 'O'
            && c != 'U')) {
            assert(!is_crockford(s@[i as int]));
            return false;
        }
        i = i + 1;
    }
    true
}

/// `ulid::Ulid::new` and its `Display`: a new identifier in canonical form. It
/// depends on the clock and on chance, so nothing is said of which one.
#[verifier::external_body]
pub(crate) fn new_ulid() -> (id: String)
    ensures
        is_ulid(id@),
{
    ulid::Ulid::new().to_string()
}

/// A fresh identifier.
pub fn fresh_id() -> (id: String)
    ensures
        is_ulid(id@),
{
    new_ulid()
}

/// No identifier holds white space or a control character.
pub proof fn law_ids_are_single_words(s: Seq<char>, i: int)
    requires
        is_ulid(s),
        0 <= i < s.len(),
    ensures
        !text::is_white_space(s[i]),
        !text::is_control(s[i]),
{
    assert(is_crockford(s[i]));
}

/// An id is twenty-six characters of the alphabet that leaves out the letters
/// mistaken for digits.
pub proof fn law_ids_are_written_in_their_alphabet(s: Seq<char>, c: char)
    ensures
        is_ulid(s) ==> s.len() == 26,
        s.len() == 26 && (forall|i: int|
            0 <= i < 26 ==> "0123456789ABCDEFGHJKMNPQRSTVWXYZ"@.contains(#[trigger] s[i])) ==> is_ulid(
            s,
        ),
        is_crockford(c) <==> "0123456789ABCDEFGHJKMNPQRSTVWXYZ"@.contains(c),
        is_ulid(s) ==> forall|i: int| 0 <= i < 26 ==> is_crockford(#[trigger] s[i]),
{
    reveal_strlit("0123456789ABCDEFGHJKMNPQRSTVWXYZ");
    let alphabet = "0123456789ABCDEFGHJKMNPQRSTVWXYZ"@;
    assert(alphabet.len() == 32);
    assert forall|d: char| is_crockford(d) <==> #[trigger] alphabet.contains(d) by {
        if is_crockford(d) {
            let u = d as int;
            let at: int = if u < 58 {
                u - 48
            } else if u < 73 {
                u - 55
            } else if u < 76 {
                u - 56
            } else if u < 79 {
                u - 57
            } else if u < 85 {
                u - 58
            } else {
                u - 59
            };
            assert(alphabet[at] == d);
        }
        if alphabet.contains(d) {
            let at = choose|at: int| 0 <= at < alphabet.len() && alphabet[at] == d;
            assert(is_crockford(alphabet[at]));
        }
    }
}

} // verus!

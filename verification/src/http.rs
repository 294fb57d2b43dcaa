//! Pieces of HTTP shared by the surfaces: headers and conditional requests.

use vstd::prelude::*;

use crate::text;

verus! {

/// A response header.
#[derive(Debug)]
pub struct Header {
    pub name: &'static str,
    pub value: String,
}

/// Headers as values, in order.
pub open spec fn headers_of(v: Seq<Header>) -> Seq<(Seq<char>, Seq<char>)> {
    v.map_values(|h: Header| (h.name@, h.value@))
}

/// Append a header.
pub fn put(headers: &mut Vec<Header>, name: &'static str, value: &str)
    ensures
        headers_of(final(headers)@) == headers_of(old(headers)@).push((name@, value@)),
{
    headers.push(Header { name, value: value.to_owned() });
    assert(headers_of(headers@) =~= headers_of(old(headers)@).push((name@, value@)));
}

pub fn no_headers() -> (v: Vec<Header>)
    ensures
        headers_of(v@) == Seq::<(Seq<char>, Seq<char>)>::empty(),
{
    let v: Vec<Header> = Vec::new();
    assert(headers_of(v@) =~= Seq::<(Seq<char>, Seq<char>)>::empty());
    v
}

/// A tag in double quotes.
pub open spec fn quoted_tag(tag: Seq<char>) -> Seq<char> {
    "\""@ + tag + "\""@
}

/// Whether a conditional request names the validator that is current: one of
/// its comma-separated tags is it, or is `*`.
pub open spec fn names_tag(header: Seq<char>, etag: Seq<char>) -> bool {
    exists|i: int|
        0 <= i < text::split_at_each(header, ',').len() && is_tag(
            #[trigger] text::split_at_each(header, ',')[i],
            etag,
        )
}

pub open spec fn is_tag(piece: Seq<char>, etag: Seq<char>) -> bool {
    text::trimmed(piece) == etag || text::trimmed(piece) == "*"@
}

pub fn matches_tag(header: &str, etag: &str) -> (b: bool)
    ensures
        b == names_tag(header@, etag@),
{
    let parts = text::split(header, ',');
    let ghost pieces = text::split_at_each(header@, ',');
    let mut i: usize = 0;
    while i < parts.len()
        invariant
            i <= parts@.len(),
            text::views(parts@) == pieces,
            pieces == text::split_at_each(header@, ','),
            forall|k: int| 0 <= k < i ==> !is_tag(#[trigger] pieces[k], etag@),
        decreases parts@.len() - i,
    {
        assert(pieces[i as int] == parts@[i as int]@);
        let piece = text::trim(parts[i].as_str());
        if text::same(piece, etag) || text::same(piece, "*") {
            assert(is_tag(pieces[i as int], etag@));
            return true;
        }
        i = i + 1;
    }
    assert(pieces.len() == parts@.len());
    false
}

/// A tag is named where it stands among the tags of the header, between commas
/// and with white space round it or not; so is any tag where a star stands
/// there. A header that is one tag names that tag alone.
pub proof fn law_tags_are_named_between_commas(header: Seq<char>, etag: Seq<char>)
    ensures
        names_tag(header, etag) <==> exists|i: int|
            0 <= i < text::split_at_each(header, ',').len() && (text::trimmed(
                #[trigger] text::split_at_each(header, ',')[i],
            ) == etag || text::trimmed(text::split_at_each(header, ',')[i]) == seq!['*']),
        !header.contains(',') ==> (names_tag(header, etag) <==> text::trimmed(header) == etag
            || text::trimmed(header) == seq!['*']),
        quoted_tag(etag) == seq!['"'] + etag + seq!['"'],
{
    reveal_strlit("*");
    reveal_strlit("\"");
    assert("*"@ =~= seq!['*']);
    assert("\""@ =~= seq!['"']);
    let pieces = text::split_at_each(header, ',');
    if names_tag(header, etag) {
        let i = choose|i: int| 0 <= i < pieces.len() && is_tag(#[trigger] pieces[i], etag);
        assert(text::trimmed(pieces[i]) == etag || text::trimmed(pieces[i]) == seq!['*']);
    }
    if exists|i: int|
        0 <= i < pieces.len() && (text::trimmed(#[trigger] pieces[i]) == etag || text::trimmed(
            pieces[i],
        ) == seq!['*']) {
        let i = choose|i: int|
            0 <= i < pieces.len() && (text::trimmed(#[trigger] pieces[i]) == etag || text::trimmed(
                pieces[i],
            ) == seq!['*']);
        assert(is_tag(pieces[i], etag));
    }
    if !header.contains(',') {
        text::lemma_unsplit(header, ',');
        assert(pieces =~= seq![header]);
        assert(pieces[0] == header);
        if text::trimmed(header) == etag || text::trimmed(header) == seq!['*'] {
            assert(is_tag(pieces[0], etag));
        }
    }
}

/// Headers keep their order, and each its name and its value.
pub proof fn law_headers_keep_their_place(headers: Seq<Header>, i: int)
    ensures
        headers_of(headers).len() == headers.len(),
        0 <= i < headers.len() ==> headers_of(headers)[i] == (headers[i].name@, headers[i].value@),
{
}

} // verus!

//! Name and attribution lifted from the archive's JSON metadata.

use vstd::prelude::*;

use crate::text;

verus! {

/// Characters that never reach the screen: control characters, and the two
/// bidirectional overrides.
pub open spec fn is_unprintable(c: char) -> bool {
    text::is_control(c) || c == '\u{202d}' || c == '\u{202e}'
}

/// `s` without its tags, each unprintable character a space.
pub open spec fn legible(s: Seq<char>, in_tag: bool) -> Seq<char>
    decreases s.len(),
{
    if s.len() == 0 {
        seq![]
    } else if s[0] == '<' {
        legible(s.drop_first(), true)
    } else if s[0] == '>' {
        legible(s.drop_first(), false)
    } else if in_tag {
        legible(s.drop_first(), true)
    } else if is_unprintable(s[0]) {
        seq![' '] + legible(s.drop_first(), false)
    } else {
        seq![s[0]] + legible(s.drop_first(), false)
    }
}

/// `raw` reduced to one line of text, where anything legible is left of it.
pub open spec fn plain_text(raw: Seq<char>) -> Option<Seq<char>> {
    let line = text::collapsed(legible(raw, false));
    if line.len() == 0 {
        None
    } else {
        Some(line)
    }
}

/// A character that may stand in reduced text.
pub open spec fn is_plain(c: char) -> bool {
    c != '<' && c != '>' && !is_unprintable(c)
}

/// Every character of a line may stand in reduced text.
pub open spec fn all_plain(line: Seq<char>) -> bool {
    forall|i: int| 0 <= i < line.len() ==> is_plain(#[trigger] line[i])
}

proof fn lemma_legible_is_plain(s: Seq<char>, in_tag: bool)
    ensures
        all_plain(legible(s, in_tag)),
    decreases s.len(),
{
    if s.len() > 0 {
        let rest = s.drop_first();
        lemma_legible_is_plain(rest, true);
        lemma_legible_is_plain(rest, false);
        let tail = legible(rest, false);
        assert(all_plain(seq![' '] + tail));
        if is_plain(s[0]) {
            assert(all_plain(seq![s[0]] + tail));
        }
    }
}

/// Every character of some words may stand in reduced text.
spec fn words_plain(words: Seq<Seq<char>>) -> bool {
    forall|i: int| 0 <= i < words.len() ==> all_plain(#[trigger] words[i])
}

proof fn lemma_words_are_plain(s: Seq<char>, begun: Seq<char>)
    requires
        all_plain(s),
        all_plain(begun),
    ensures
        words_plain(text::words_from(s, begun)),
    decreases s.len(),
{
    if s.len() > 0 {
        let rest = s.skip(1);
        assert(all_plain(rest));
        assert(is_plain(s[0]));
        assert(all_plain(begun.push(s[0])));
        lemma_words_are_plain(rest, seq![]);
        lemma_words_are_plain(rest, begun.push(s[0]));
    }
}

proof fn lemma_joined_is_plain(words: Seq<Seq<char>>)
    requires
        words_plain(words),
    ensures
        all_plain(text::joined(words, " "@)),
    decreases words.len(),
{
    reveal_strlit(" ");
    if words.len() > 1 {
        let before = words.drop_last();
        assert forall|i: int| 0 <= i < before.len() implies all_plain(#[trigger] before[i]) by {
            assert(before[i] == words[i]);
        }
        lemma_joined_is_plain(before);
        assert(all_plain(words[words.len() - 1]));
        assert(all_plain(text::joined(before, " "@) + " "@ + words.last()));
    }
}

/// No markup and no unprintable character survives the reduction.
pub proof fn law_plain_text_is_plain(raw: Seq<char>)
    ensures
        plain_text(raw) matches Some(line) ==> all_plain(line),
{
    lemma_legible_is_plain(raw, false);
    lemma_words_are_plain(legible(raw, false), seq![]);
    lemma_joined_is_plain(text::words(legible(raw, false)));
}

/// Strip tags and collapse white space, yielding `None` when nothing legible is
/// left. Not an HTML sanitizer: the result is only ever rendered as text.
pub fn to_plain_text(raw: &str) -> (r: Option<String>)
    ensures
        text::opt_view(r) == plain_text(raw@),
{
    let v = text::chars_of(raw);
    let mut out: Vec<char> = Vec::new();
    let mut in_tag = false;
    let mut i: usize = 0;
    assert(v@.skip(0) =~= v@);
    assert(out@ + legible(raw@, false) =~= legible(raw@, false));
    while i < v.len()
        invariant
            v@ == raw@,
            i <= v@.len(),
            out@ + legible(v@.skip(i as int), in_tag) == legible(raw@, false),
        decreases v@.len() - i,
    {
        let ghost before = out@;
        let ghost rest = v@.skip(i + 1);
        assert(v@.skip(i as int).drop_first() =~= rest);
        let c = v[i];
        if c == '<' {
            in_tag = true;
        } else if c == '>' {
            in_tag = false;
        } else if !in_tag {
            let kept = if text::control(c) || c == '\u{202d}' || c == '\u{202e}' {
                ' '
            } else {
                c
            };
            out.push(kept);
            assert(before + (seq![kept] + legible(rest, false)) =~= out@ + legible(rest, false));
        }
        i = i + 1;
    }
    assert(out@ + Seq::<char>::empty() =~= out@);
    let line = text::collapse_spaces(text::from_chars(&out).as_str());
    if line.as_str().is_empty() {
        None
    } else {
        Some(line)
    }
}

/// Name and attribution of an archive, as plain text.
#[derive(Debug)]
pub struct ArchiveMetadata {
    pub name: Option<String>,
    pub attribution: Option<String>,
}

impl Clone for ArchiveMetadata {
    fn clone(&self) -> (m: Self)
        ensures
            m == *self,
    {
        ArchiveMetadata { name: self.name.clone(), attribution: self.attribution.clone() }
    }
}

impl Default for ArchiveMetadata {
    fn default() -> (m: Self)
        ensures
            m.name is None,
            m.attribution is None,
    {
        ArchiveMetadata { name: None, attribution: None }
    }
}

/// The text that a JSON document, if it is an object, holds under `key`.
pub uninterp spec fn json_text_member_of(document: Seq<u8>, key: Seq<char>) -> Option<Seq<char>>;

/// `serde_json::from_slice`, `Value::get` and `Value::as_str`: the text under
/// `key` of a JSON object. `None` where the bytes are not JSON, not an object,
/// have no such key or hold something else than a text there. What the bytes
/// must look like for each of these is not stated.
#[verifier::external_body]
fn json_text_member(document: &[u8], key: &str) -> (r: Option<String>)
    ensures
        text::opt_view(r) == json_text_member_of(document@, key@),
{
    let value = serde_json::from_slice::<serde_json::Value>(document).ok()?;
    value.get(key)?.as_str().map(str::to_owned)
}

/// A member reduced to plain text.
pub open spec fn reduced(member: Option<Seq<char>>) -> Option<Seq<char>> {
    match member {
        Some(raw) => plain_text(raw),
        None => None,
    }
}

fn reduce(member: Option<String>) -> (r: Option<String>)
    ensures
        text::opt_view(r) == reduced(text::opt_view(member)),
{
    match member {
        Some(raw) => to_plain_text(raw.as_str()),
        None => None,
    }
}

impl ArchiveMetadata {
    /// The metadata that the two members of the document give.
    pub fn from_members(name: Option<String>, attribution: Option<String>) -> (m: Self)
        ensures
            text::opt_view(m.name) == reduced(text::opt_view(name)),
            text::opt_view(m.attribution) == reduced(text::opt_view(attribution)),
    {
        ArchiveMetadata { name: reduce(name), attribution: reduce(attribution) }
    }

    /// Whether this is what the metadata document says. A document that is not
    /// JSON has no members: a map serves correct tiles without them.
    pub open spec fn describes(self, document: Seq<u8>) -> bool {
        &&& text::opt_view(self.name) == reduced(json_text_member_of(document, "name"@))
        &&& text::opt_view(self.attribution) == reduced(
            json_text_member_of(document, "attribution"@),
        )
    }

    pub fn parse(document: &[u8]) -> (m: Self)
        ensures
            m.describes(document@),
    {
        Self::from_members(
            json_text_member(document, "name"),
            json_text_member(document, "attribution"),
        )
    }
}

/// A text without tags and without what cannot be printed is kept as it is.
proof fn lemma_plain_is_legible(s: Seq<char>, behind: Seq<char>)
    requires
        all_plain(s),
    ensures
        legible(s + behind, false) == s + legible(behind, false),
    decreases s.len(),
{
    if s.len() == 0 {
        assert(s + behind =~= behind);
        assert(s + legible(behind, false) =~= legible(behind, false));
    } else {
        let all = s + behind;
        let rest = s.drop_first();
        assert(all[0] == s[0]);
        assert(is_plain(s[0]));
        assert forall|i: int| 0 <= i < rest.len() implies is_plain(#[trigger] rest[i]) by {
            assert(is_plain(s[i + 1]));
        }
        assert(all.drop_first() =~= rest + behind);
        lemma_plain_is_legible(rest, behind);
        assert(seq![s[0]] + (rest + legible(behind, false)) =~= s + legible(behind, false));
    }
}

proof fn lemma_tag_is_passed_over(tag: Seq<char>, behind: Seq<char>)
    requires
        !tag.contains('>'),
    ensures
        legible(tag + seq!['>'] + behind, true) == legible(behind, false),
    decreases tag.len(),
{
    let all = tag + seq!['>'] + behind;
    if tag.len() == 0 {
        assert(all[0] == '>');
        assert(all.drop_first() =~= behind);
    } else {
        let rest = tag.drop_first();
        assert(all[0] == tag[0]);
        assert(tag.contains(tag[0]));
        assert(!rest.contains('>')) by {
            if rest.contains('>') {
                let i = choose|i: int| 0 <= i < rest.len() && rest[i] == '>';
                assert(tag[i + 1] == '>');
            }
        }
        assert(all.drop_first() =~= rest + seq!['>'] + behind);
        lemma_tag_is_passed_over(rest, behind);
    }
}

/// A tag is dropped with all that stands in it, what stands before it and behind
/// it is kept, and a character that cannot be printed becomes a space.
pub proof fn law_tags_are_dropped_and_the_rest_is_kept(
    before: Seq<char>,
    tag: Seq<char>,
    c: char,
    behind: Seq<char>,
)
    requires
        all_plain(before),
        !tag.contains('>'),
    ensures
        legible(before, false) == before,
        legible(before + (seq!['<'] + (tag + seq!['>'] + behind)), false) == before + legible(
            behind,
            false,
        ),
        is_unprintable(c) && c != '<' && c != '>' ==> legible(seq![c] + behind, false) == seq![' ']
            + legible(behind, false),
        c < ' ' || c == '\u{202e}' ==> is_unprintable(c),
        ' ' <= c <= '~' ==> !is_unprintable(c),
{
    lemma_plain_is_legible(before, seq![]);
    assert(before + Seq::<char>::empty() =~= before);
    assert(legible(Seq::<char>::empty(), false) =~= Seq::<char>::empty());
    let inner = tag + seq!['>'] + behind;
    let opened = seq!['<'] + inner;
    lemma_plain_is_legible(before, opened);
    assert(opened[0] == '<');
    assert(opened.drop_first() =~= inner);
    lemma_tag_is_passed_over(tag, behind);
    let marked = seq![c] + behind;
    assert(marked[0] == c);
    assert(marked.drop_first() =~= behind);
}

/// What is left is one line: its words with a space between them; where no word
/// is left there is no text.
pub proof fn law_plain_text_is_one_line(raw: Seq<char>)
    ensures
        plain_text(raw) is Some <==> text::joined(text::words(legible(raw, false)), " "@).len() > 0,
        plain_text(raw) matches Some(line) ==> line == text::joined(
            text::words(legible(raw, false)),
            " "@,
        ),
        reduced(Some(raw)) == plain_text(raw),
        reduced(None) is None,
{
}

/// The name and the attribution come from the members of those names, each
/// reduced to a line of plain text.
pub proof fn law_metadata_comes_from_its_members(m: ArchiveMetadata, document: Seq<u8>)
    requires
        m.describes(document),
    ensures
        m.name is Some <==> json_text_member_of(document, "name"@) is Some && plain_text(
            json_text_member_of(document, "name"@)->0,
        ) is Some,
        m.name matches Some(name) ==> Some(name@) == plain_text(
            json_text_member_of(document, "name"@)->0,
        ),
        m.attribution is Some <==> json_text_member_of(document, "attribution"@) is Some
            && plain_text(json_text_member_of(document, "attribution"@)->0) is Some,
        m.attribution matches Some(credit) ==> Some(credit@) == plain_text(
            json_text_member_of(document, "attribution"@)->0,
        ),
{
}

} // verus!

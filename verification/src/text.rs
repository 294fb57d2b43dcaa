//! Text as sequences of characters: trimming, splitting, comparing, and the
//! decimal form of numbers.

use vstd::prelude::*;
use vstd::string::*;

verus! {

/// `String::push` puts one character at the end of the text.
pub assume_specification[ String::push ](s: &mut String, c: char)
    ensures
        final(s)@ == old(s)@.push(c),
;

// ---------------------------------------------------------------------------
// Characters
// ---------------------------------------------------------------------------

/// The characters with the Unicode property `White_Space`.
pub open spec fn is_white_space(c: char) -> bool {
    ||| 0x9 <= c as u32 <= 0xd
    ||| c as u32 == 0x20
    ||| c as u32 == 0x85
    ||| c as u32 == 0xa0
    ||| c as u32 == 0x1680
    ||| 0x2000 <= c as u32 <= 0x200a
    ||| c as u32 == 0x2028
    ||| c as u32 == 0x2029
    ||| c as u32 == 0x202f
    ||| c as u32 == 0x205f
    ||| c as u32 == 0x3000
}

/// The characters of the Unicode category `Cc`.
pub open spec fn is_control(c: char) -> bool {
    c as u32 <= 0x1f || 0x7f <= c as u32 <= 0x9f
}

/// An ASCII letter in lower case, any other character as it is.
pub open spec fn ascii_lower(c: char) -> char {
    if 'A' <= c <= 'Z' {
        ((c as u32) + 32) as char
    } else {
        c
    }
}

pub open spec fn is_digit(c: char) -> bool {
    '0' <= c <= '9'
}

pub fn white_space(c: char) -> (b: bool)
    ensures
        b == is_white_space(c),
{
    let u: u32 = c as u32;
    (0x9 <= u && u <= 0xd) || u == 0x20 || u == 0x85 || u == 0xa0 || u == 0x1680 || (0x2000 <= u
        && u <= 0x200a) || u == 0x2028 || u == 0x2029 || u == 0x202f || u == 0x205f || u == 0x3000
}

pub fn control(c: char) -> (b: bool)
    ensures
        b == is_control(c),
{
    let u: u32 = c as u32;
    u <= 0x1f || (0x7f <= u && u <= 0x9f)
}

/// Whether a control character is among the characters.
pub fn has_control(v: &Vec<char>) -> (b: bool)
    ensures
        b == exists|i: int| 0 <= i < v@.len() && is_control(#[trigger] v@[i]),
{
    let mut i: usize = 0;
    while i < v.len()
        invariant
            i <= v@.len(),
            forall|k: int| 0 <= k < i ==> !is_control(#[trigger] v@[k]),
        decreases v@.len() - i,
    {
        if control(v[i]) {
            return true;
        }
        i = i + 1;
    }
    false
}

pub fn to_ascii_lower(c: char) -> (l: char)
    ensures
        l == ascii_lower(c),
{
    if 'A' <= c && c <= 'Z' {
        let b: u8 = c as u8 + 32;
        b as char
    } else {
        c
    }
}

// ---------------------------------------------------------------------------
// Whole texts
// ---------------------------------------------------------------------------

pub fn chars_of(s: &str) -> (v: Vec<char>)
    ensures
        v@ == s@,
{
    let mut v: Vec<char> = Vec::new();
    for c in it: s.chars()
        invariant
            v@ == s@.take(it.index() as int),
            it.seq() == s@,
    {
        v.push(c);
    }
    v
}

pub fn from_chars(v: &Vec<char>) -> (s: String)
    ensures
        s@ == v@,
{
    let mut s = String::new();
    let mut i: usize = 0;
    while i < v.len()
        invariant
            i <= v@.len(),
            s@ == v@.take(i as int),
        decreases v@.len() - i,
    {
        s.push(v[i]);
        i = i + 1;
    }
    assert(v@.take(v@.len() as int) =~= v@);
    s
}

pub fn same(a: &str, b: &str) -> (r: bool)
    ensures
        r == (a@ == b@),
{
    a.to_owned() == b.to_owned()
}

/// The views of a sequence of texts.
pub open spec fn views(v: Seq<String>) -> Seq<Seq<char>> {
    v.map_values(|s: String| s@)
}

/// The view of a text that may be absent.
pub open spec fn opt_view(s: Option<String>) -> Option<Seq<char>> {
    match s {
        Some(t) => Some(t@),
        None => None,
    }
}

/// Whether one of the texts is `wanted`.
pub fn contains_text(v: &Vec<String>, wanted: &str) -> (b: bool)
    ensures
        b == views(v@).contains(wanted@),
{
    let mut i: usize = 0;
    while i < v.len()
        invariant
            i <= v@.len(),
            forall|k: int| 0 <= k < i ==> v@[k]@ != wanted@,
        decreases v@.len() - i,
    {
        if same(v[i].as_str(), wanted) {
            assert(views(v@)[i as int] == wanted@);
            return true;
        }
        i = i + 1;
    }
    assert forall|k: int| 0 <= k < views(v@).len() implies views(v@)[k] != wanted@ by {
        assert(views(v@)[k] == v@[k]@);
    }
    false
}

pub fn copy_texts(v: &Vec<String>) -> (r: Vec<String>)
    ensures
        r@ == v@,
{
    let mut r: Vec<String> = Vec::new();
    let mut i: usize = 0;
    while i < v.len()
        invariant
            i <= v@.len(),
            r@ == v@.take(i as int),
        decreases v@.len() - i,
    {
        r.push(v[i].clone());
        i = i + 1;
    }
    assert(v@.take(v@.len() as int) =~= v@);
    r
}

pub fn copy_opt(s: &Option<String>) -> (r: Option<String>)
    ensures
        r == *s,
{
    match s {
        Some(t) => Some(t.clone()),
        None => None,
    }
}

pub fn concat3(a: &str, b: &str, c: &str) -> (r: String)
    ensures
        r@ == a@ + b@ + c@,
{
    let mut r = a.to_owned();
    r.append(b);
    r.append(c);
    r
}

pub fn concat2(a: &str, b: &str) -> (r: String)
    ensures
        r@ == a@ + b@,
{
    let mut r = a.to_owned();
    r.append(b);
    r
}

/// A text in double quotes, with what is not printable escaped.
pub uninterp spec fn debug_text(s: Seq<char>) -> Seq<char>;

/// The `Debug` form of a `str`: the text in double quotes, quotes, backslashes
/// and unprintable characters escaped. Which characters are escaped, and how,
/// is not stated.
#[verifier::external_body]
pub(crate) fn quoted(s: &str) -> (r: String)
    ensures
        r@ == debug_text(s@),
{
    format!("{s:?}")
}

pub open spec fn is_ascii_text(s: Seq<char>) -> bool {
    forall|i: int| 0 <= i < s.len() ==> #[trigger] s[i] <= '\u{7f}'
}

/// The lower-case form of a text, character by character and in context.
pub uninterp spec fn lowercase_of(s: Seq<char>) -> Seq<char>;

/// `str::to_lowercase`. Of ASCII text the capital letters change and nothing
/// else does; how other characters map is not stated.
#[verifier::external_body]
pub(crate) fn lowercase(s: &str) -> (r: String)
    ensures
        r@ == lowercase_of(s@),
        is_ascii_text(s@) ==> r@ == s@.map_values(|c: char| ascii_lower(c)),
{
    s.to_lowercase()
}

// ---------------------------------------------------------------------------
// Trimming
// ---------------------------------------------------------------------------

pub open spec fn trim_start(s: Seq<char>) -> Seq<char>
    decreases s.len(),
{
    if s.len() > 0 && is_white_space(s[0]) {
        trim_start(s.drop_first())
    } else {
        s
    }
}

pub open spec fn trim_end(s: Seq<char>) -> Seq<char>
    decreases s.len(),
{
    if s.len() > 0 && is_white_space(s.last()) {
        trim_end(s.drop_last())
    } else {
        s
    }
}

/// `s` without the white space at either end.
pub open spec fn trimmed(s: Seq<char>) -> Seq<char> {
    trim_end(trim_start(s))
}

pub fn trim(s: &str) -> (r: &str)
    ensures
        r@ == trimmed(s@),
{
    let v = chars_of(s);
    let mut start: usize = 0;
    assert(s@.skip(0) =~= s@);
    while start < v.len() && white_space(v[start])
        invariant
            v@ == s@,
            start <= v@.len(),
            trim_start(s@) == trim_start(s@.skip(start as int)),
        decreases v@.len() - start,
    {
        assert(s@.skip(start as int).drop_first() =~= s@.skip(start + 1));
        start = start + 1;
    }
    let ghost t = s@.skip(start as int);
    assert(trim_start(s@) == t);
    let mut end: usize = v.len();
    assert(t.take(end - start) =~= t);
    while end > start && white_space(v[end - 1])
        invariant
            v@ == s@,
            start <= end <= v@.len(),
            t == s@.skip(start as int),
            trim_end(t) == trim_end(t.take(end - start)),
        decreases end,
    {
        let ghost u = t.take(end - start);
        assert(u.last() == s@[end - 1]);
        assert(u.drop_last() =~= t.take(end - 1 - start));
        end = end - 1;
    }
    assert(t.take(end - start) =~= s@.subrange(start as int, end as int));
    s.substring_char(start, end)
}

/// Trimming never leaves white space at either end, and trimming twice is
/// trimming once.
pub proof fn law_trimmed_has_no_margin(s: Seq<char>)
    ensures
        trimmed(s).len() <= s.len(),
        trimmed(s).len() > 0 ==> !is_white_space(trimmed(s)[0]) && !is_white_space(
            trimmed(s).last(),
        ),
        trimmed(trimmed(s)) == trimmed(s),
{
    lemma_trim_start_head(s);
    lemma_trim_end_tail(trim_start(s));
    let t = trimmed(s);
    assert(trim_start(t) == t);
    assert(trim_end(t) == t);
}

proof fn lemma_trim_start_head(s: Seq<char>)
    ensures
        trim_start(s).len() <= s.len(),
        trim_start(s).len() > 0 ==> !is_white_space(trim_start(s)[0]),
    decreases s.len(),
{
    if s.len() > 0 && is_white_space(s[0]) {
        lemma_trim_start_head(s.drop_first());
    }
}

proof fn lemma_trim_end_tail(s: Seq<char>)
    ensures
        trim_end(s).len() <= s.len(),
        trim_end(s).len() > 0 ==> !is_white_space(trim_end(s).last()) && trim_end(s)[0] == s[0],
    decreases s.len(),
{
    if s.len() > 0 && is_white_space(s.last()) {
        lemma_trim_end_tail(s.drop_last());
    }
}

// ---------------------------------------------------------------------------
// Parts of a text
// ---------------------------------------------------------------------------

/// What follows `prefix` in `s`, where `s` starts with it.
pub open spec fn stripped(s: Seq<char>, prefix: Seq<char>) -> Option<Seq<char>> {
    if prefix.is_prefix_of(s) {
        Some(s.skip(prefix.len() as int))
    } else {
        None
    }
}

pub fn strip_prefix<'a>(s: &'a str, prefix: &str) -> (r: Option<&'a str>)
    ensures
        match r {
            Some(rest) => stripped(s@, prefix@) == Some(rest@),
            None => stripped(s@, prefix@) is None,
        },
{
    let n: usize = prefix.unicode_len();
    let len: usize = s.unicode_len();
    if n > len {
        return None;
    }
    let head = s.substring_char(0, n);
    if !same(head, prefix) {
        assert(!prefix@.is_prefix_of(s@));
        return None;
    }
    let rest = s.substring_char(n, len);
    assert(rest@ =~= s@.skip(n as int));
    Some(rest)
}

pub fn starts_with(s: &str, prefix: &str) -> (b: bool)
    ensures
        b == prefix@.is_prefix_of(s@),
{
    strip_prefix(s, prefix).is_some()
}

/// Whether `part` occurs in `s` at position `i`.
pub open spec fn occurs_at(s: Seq<char>, part: Seq<char>, i: int) -> bool {
    0 <= i && i + part.len() <= s.len() && s.subrange(i, i + part.len()) == part
}

/// Whether `part` occurs anywhere in `s`.
pub open spec fn has_part(s: Seq<char>, part: Seq<char>) -> bool {
    exists|i: int| occurs_at(s, part, i)
}

pub fn contains(s: &str, part: &str) -> (b: bool)
    ensures
        b == has_part(s@, part@),
{
    let n: usize = s.unicode_len();
    let m: usize = part.unicode_len();
    if m > n {
        assert(forall|k: int| !occurs_at(s@, part@, k));
        return false;
    }
    let mut i: usize = 0;
    while i <= n - m
        invariant
            n == s@.len(),
            m == part@.len(),
            m <= n,
            i <= n - m + 1,
            forall|k: int| 0 <= k < i ==> !occurs_at(s@, part@, k),
        decreases n - m + 1 - i,
    {
        if same(s.substring_char(i, i + m), part) {
            assert(occurs_at(s@, part@, i as int));
            return true;
        }
        if i == n - m {
            assert(forall|k: int| !occurs_at(s@, part@, k));
            return false;
        }
        i = i + 1;
    }
    false
}

/// The pieces of `s` between the separators, at least one.
pub open spec fn split_at_each(s: Seq<char>, sep: char) -> Seq<Seq<char>>
    decreases s.len(),
{
    if s.len() == 0 {
        seq![seq![]]
    } else {
        let before = split_at_each(s.drop_last(), sep);
        if s.last() == sep {
            before.push(seq![])
        } else {
            before.drop_last().push(before.last().push(s.last()))
        }
    }
}

pub proof fn lemma_split_nonempty(s: Seq<char>, sep: char)
    ensures
        split_at_each(s, sep).len() >= 1,
    decreases s.len(),
{
    if s.len() > 0 {
        lemma_split_nonempty(s.drop_last(), sep);
    }
}

pub fn split(s: &str, sep: char) -> (parts: Vec<String>)
    ensures
        views(parts@) == split_at_each(s@, sep),
        parts@.len() >= 1,
{
    let v = chars_of(s);
    let mut parts: Vec<String> = Vec::new();
    let mut current = String::new();
    let mut i: usize = 0;
    assert(v@.take(0) =~= seq![]);
    assert(views(parts@).push(current@) =~= seq![seq![]]);
    while i < v.len()
        invariant
            i <= v@.len(),
            v@ == s@,
            views(parts@).push(current@) == split_at_each(v@.take(i as int), sep),
        decreases v@.len() - i,
    {
        let ghost upto = v@.take(i + 1);
        assert(upto.drop_last() =~= v@.take(i as int));
        assert(upto.last() == v@[i as int]);
        let ghost before = split_at_each(v@.take(i as int), sep);
        if v[i] == sep {
            let ghost done = views(parts@).push(current@);
            parts.push(current);
            assert(views(parts@) =~= done);
            current = String::new();
            assert(views(parts@).push(current@) =~= before.push(seq![]));
        } else {
            assert(before.drop_last() =~= views(parts@));
            current.push(v[i]);
        }
        i = i + 1;
    }
    assert(v@.take(v@.len() as int) =~= v@);
    let ghost done = views(parts@).push(current@);
    parts.push(current);
    assert(views(parts@) =~= done);
    parts
}

/// What stands before and behind the first `sep`.
pub open spec fn halves(s: Seq<char>, sep: char) -> Option<(Seq<char>, Seq<char>)>
    decreases s.len(),
{
    if s.len() == 0 {
        None
    } else if s[0] == sep {
        Some((seq![], s.drop_first()))
    } else {
        match halves(s.drop_first(), sep) {
            Some((before, behind)) => Some((seq![s[0]] + before, behind)),
            None => None,
        }
    }
}

proof fn lemma_halves_at(s: Seq<char>, sep: char, i: int)
    requires
        0 <= i <= s.len(),
        forall|k: int| 0 <= k < i ==> s[k] != sep,
        i < s.len() ==> s[i] == sep,
    ensures
        halves(s, sep) == (if i < s.len() {
            Some((s.take(i), s.skip(i + 1)))
        } else {
            None
        }),
    decreases i,
{
    if i > 0 {
        let rest = s.drop_first();
        assert(forall|k: int| 0 <= k < i - 1 ==> rest[k] == s[k + 1]);
        lemma_halves_at(rest, sep, i - 1);
        if i < s.len() {
            assert(seq![s[0]] + rest.take(i - 1) =~= s.take(i));
            assert(rest.skip(i) =~= s.skip(i + 1));
        }
    } else if s.len() > 0 {
        assert(s.take(0) =~= seq![]);
        assert(s.skip(1) =~= s.drop_first());
    }
}

pub fn split_once<'a>(s: &'a str, sep: char) -> (r: Option<(&'a str, &'a str)>)
    ensures
        match r {
            Some((before, behind)) => halves(s@, sep) == Some((before@, behind@)),
            None => halves(s@, sep) is None,
        },
{
    let v = chars_of(s);
    let mut i: usize = 0;
    while i < v.len() && v[i] != sep
        invariant
            v@ == s@,
            i <= v@.len(),
            forall|k: int| 0 <= k < i ==> v@[k] != sep,
        decreases v@.len() - i,
    {
        i = i + 1;
    }
    proof {
        lemma_halves_at(s@, sep, i as int);
    }
    if i == v.len() {
        return None;
    }
    let before = s.substring_char(0, i);
    let behind = s.substring_char(i + 1, v.len());
    assert(before@ =~= s@.take(i as int));
    assert(behind@ =~= s@.skip(i + 1));
    Some((before, behind))
}

/// Texts that are the same behind one beginning are the same.
pub proof fn lemma_same_behind(beginning: Seq<char>, a: Seq<char>, b: Seq<char>)
    ensures
        beginning + a == beginning + b ==> a == b,
{
    if beginning + a == beginning + b {
        assert((beginning + a).skip(beginning.len() as int) =~= a);
        assert((beginning + b).skip(beginning.len() as int) =~= b);
    }
}

/// A text with its ASCII capitals in lower case.
pub open spec fn ascii_lowered(s: Seq<char>) -> Seq<char> {
    s.map_values(|c: char| ascii_lower(c))
}

pub fn to_ascii_lowercase(s: &str) -> (r: String)
    ensures
        r@ == ascii_lowered(s@),
{
    let v = chars_of(s);
    let mut r = String::new();
    let mut i: usize = 0;
    while i < v.len()
        invariant
            v@ == s@,
            i <= v@.len(),
            r@ == ascii_lowered(s@).take(i as int),
        decreases v@.len() - i,
    {
        r.push(to_ascii_lower(v[i]));
        i = i + 1;
    }
    assert(ascii_lowered(s@).take(v@.len() as int) =~= ascii_lowered(s@));
    r
}

/// Whether anything but white space is in a text.
pub open spec fn is_blank(s: Seq<char>) -> bool {
    trimmed(s).len() == 0
}

pub fn blank(s: &str) -> (b: bool)
    ensures
        b == is_blank(s@),
{
    trim(s).is_empty()
}

/// The texts one after another, with `sep` between them.
pub open spec fn joined(parts: Seq<Seq<char>>, sep: Seq<char>) -> Seq<char>
    decreases parts.len(),
{
    if parts.len() == 0 {
        seq![]
    } else if parts.len() == 1 {
        parts[0]
    } else {
        joined(parts.drop_last(), sep) + sep + parts.last()
    }
}

pub fn join(parts: &Vec<String>, sep: &str) -> (r: String)
    ensures
        r@ == joined(views(parts@), sep@),
{
    let mut r = String::new();
    let mut i: usize = 0;
    let ghost all = views(parts@);
    assert(all.take(0) =~= seq![]);
    while i < parts.len()
        invariant
            i <= parts@.len(),
            all == views(parts@),
            r@ == joined(all.take(i as int), sep@),
        decreases parts@.len() - i,
    {
        let ghost upto = all.take(i + 1);
        assert(upto.drop_last() =~= all.take(i as int));
        assert(upto.last() == parts@[i as int]@);
        let ghost before = r@;
        if i > 0 {
            r.append(sep);
        }
        r.append(parts[i].as_str());
        if i == 0 {
            assert(before =~= seq![]);
            assert(r@ =~= upto[0]);
        }
        i = i + 1;
    }
    assert(all.take(parts@.len() as int) =~= all);
    r
}

// ---------------------------------------------------------------------------
// Words
// ---------------------------------------------------------------------------

/// The words of a text, the first of which is begun: what white space
/// separates.
pub open spec fn words_from(s: Seq<char>, begun: Seq<char>) -> Seq<Seq<char>>
    decreases s.len(),
{
    let ended = if begun.len() == 0 {
        Seq::<Seq<char>>::empty()
    } else {
        seq![begun]
    };
    if s.len() == 0 {
        ended
    } else if is_white_space(s[0]) {
        ended + words_from(s.skip(1), seq![])
    } else {
        words_from(s.skip(1), begun.push(s[0]))
    }
}

/// The words of a text.
pub open spec fn words(s: Seq<char>) -> Seq<Seq<char>> {
    words_from(s, seq![])
}

pub fn split_words(s: &str) -> (r: Vec<String>)
    ensures
        views(r@) == words(s@),
{
    let v = chars_of(s);
    let mut r: Vec<String> = Vec::new();
    let mut begun: Vec<char> = Vec::new();
    let mut i: usize = 0;
    assert(views(r@) =~= Seq::<Seq<char>>::empty());
    assert(s@.skip(0) =~= s@);
    assert(begun@ =~= seq![]);
    assert(views(r@) + words_from(s@, seq![]) =~= words(s@));
    while i < v.len()
        invariant
            v@ == s@,
            i <= v@.len(),
            views(r@) + words_from(s@.skip(i as int), begun@) == words(s@),
        decreases v@.len() - i,
    {
        let c = v[i];
        let ghost before = views(r@);
        let ghost word = begun@;
        assert(s@.skip(i as int).skip(1) =~= s@.skip(i + 1));
        if white_space(c) {
            if begun.len() > 0 {
                r.push(from_chars(&begun));
                assert(views(r@) =~= before + seq![word]);
                begun = Vec::new();
            }
            assert(begun@ =~= seq![]);
            assert(views(r@) + words_from(s@.skip(i + 1), begun@) =~= before + words_from(
                s@.skip(i as int),
                word,
            ));
        } else {
            begun.push(c);
        }
        i = i + 1;
    }
    let ghost before = views(r@);
    let ghost word = begun@;
    if begun.len() > 0 {
        r.push(from_chars(&begun));
        assert(views(r@) =~= before + seq![word]);
    } else {
        assert(views(r@) =~= before + Seq::<Seq<char>>::empty());
    }
    r
}

/// A text with each run of white space reduced to one space, and none at either
/// end: its words, with a space between them.
pub open spec fn collapsed(s: Seq<char>) -> Seq<char> {
    joined(words(s), " "@)
}

/// Reduce each run of white space to one space, and drop it at either end.
pub fn collapse_spaces(s: &str) -> (r: String)
    ensures
        r@ == collapsed(s@),
{
    join(&split_words(s), " ")
}

// ---------------------------------------------------------------------------
// Decimal numbers
// ---------------------------------------------------------------------------

pub open spec fn digit_char(d: nat) -> char {
    (48 + d) as char
}

/// The decimal form of `n`, without leading zeros.
pub open spec fn decimal(n: nat) -> Seq<char>
    decreases n,
{
    if n < 10 {
        seq![digit_char(n)]
    } else {
        decimal(n / 10).push(digit_char(n % 10))
    }
}

fn digit(d: u64) -> (c: char)
    requires
        d < 10,
    ensures
        c == digit_char(d as nat),
{
    let b: u8 = 48 + d as u8;
    b as char
}

pub fn push_decimal(out: &mut String, n: u64)
    ensures
        final(out)@ == old(out)@ + decimal(n as nat),
    decreases n,
{
    if n >= 10 {
        push_decimal(out, n / 10);
    }
    let ghost before = out@;
    out.push(digit(n % 10));
    assert(out@ =~= old(out)@ + decimal(n as nat));
}

pub fn decimal_of(n: u64) -> (s: String)
    ensures
        s@ == decimal(n as nat),
{
    let mut s = String::new();
    push_decimal(&mut s, n);
    assert(Seq::<char>::empty() + decimal(n as nat) =~= decimal(n as nat));
    s
}

/// How many bytes a text takes in UTF-8.
pub open spec fn bytes_in(s: Seq<char>) -> nat {
    vstd::utf8::encode_utf8(s).len()
}

/// What is written one after the other is encoded one after the other.
pub proof fn lemma_encoded_together(a: Seq<char>, b: Seq<char>)
    ensures
        vstd::utf8::encode_utf8(a + b) == vstd::utf8::encode_utf8(a) + vstd::utf8::encode_utf8(b),
    decreases a.len(),
{
    if a.len() == 0 {
        assert(a + b =~= b);
        assert(vstd::utf8::encode_utf8(a) + vstd::utf8::encode_utf8(b) =~= vstd::utf8::encode_utf8(
            b,
        ));
    } else {
        lemma_encoded_together(a.drop_first(), b);
        assert((a + b).drop_first() =~= a.drop_first() + b);
        assert(vstd::utf8::encode_utf8(a + b) =~= vstd::utf8::encode_utf8(a)
            + vstd::utf8::encode_utf8(b));
    }
}

pub fn byte_len(s: &str) -> (n: usize)
    ensures
        n == bytes_in(s@),
{
    s.as_bytes().len()
}

/// The first characters of a text, as many as there are.
pub open spec fn first_chars(s: Seq<char>, n: nat) -> Seq<char> {
    if s.len() <= n {
        s
    } else {
        s.take(n as int)
    }
}

pub fn take_chars(s: &str, n: usize) -> (r: String)
    ensures
        r@ == first_chars(s@, n as nat),
{
    let len: usize = s.unicode_len();
    if len <= n {
        return s.to_owned();
    }
    let r = s.substring_char(0, n);
    assert(r@ =~= s@.take(n as int));
    r.to_owned()
}

/// Whether `a` comes before `b` in the order of their characters.
pub open spec fn lex_less(a: Seq<char>, b: Seq<char>) -> bool
    decreases a.len(),
{
    if b.len() == 0 {
        false
    } else if a.len() == 0 {
        true
    } else if a[0] == b[0] {
        lex_less(a.skip(1), b.skip(1))
    } else {
        a[0] < b[0]
    }
}

pub proof fn lemma_lex_irreflexive(a: Seq<char>)
    ensures
        !lex_less(a, a),
    decreases a.len(),
{
    if a.len() > 0 {
        lemma_lex_irreflexive(a.skip(1));
    }
}

pub proof fn lemma_lex_transitive(a: Seq<char>, b: Seq<char>, c: Seq<char>)
    requires
        lex_less(a, b),
        lex_less(b, c),
    ensures
        lex_less(a, c),
    decreases a.len(),
{
    if a.len() > 0 && a[0] == b[0] && b[0] == c[0] {
        lemma_lex_transitive(a.skip(1), b.skip(1), c.skip(1));
    }
}

pub proof fn lemma_lex_total(a: Seq<char>, b: Seq<char>)
    ensures
        lex_less(a, b) || lex_less(b, a) || a == b,
    decreases a.len(),
{
    if a.len() == 0 {
        if b.len() == 0 {
            assert(a =~= b);
        }
    } else if b.len() > 0 && a[0] == b[0] {
        lemma_lex_total(a.skip(1), b.skip(1));
        if a.skip(1) == b.skip(1) {
            assert forall|i: int| 0 <= i < a.len() implies a[i] == b[i] by {
                if i > 0 {
                    assert(a.skip(1)[i - 1] == b.skip(1)[i - 1]);
                }
            }
            assert(a.skip(1).len() == b.skip(1).len());
            assert(a =~= b);
        }
    }
}

/// Whether `a` comes before `b`.
pub fn comes_before(a: &str, b: &str) -> (r: bool)
    ensures
        r == lex_less(a@, b@),
{
    let x = chars_of(a);
    let y = chars_of(b);
    let mut i: usize = 0;
    assert(a@.skip(0) =~= a@);
    assert(b@.skip(0) =~= b@);
    while i < x.len() && i < y.len()
        invariant
            x@ == a@,
            y@ == b@,
            i <= x@.len(),
            i <= y@.len(),
            lex_less(a@, b@) == lex_less(a@.skip(i as int), b@.skip(i as int)),
        decreases x@.len() - i,
    {
        assert(a@.skip(i as int).skip(1) =~= a@.skip(i + 1));
        assert(b@.skip(i as int).skip(1) =~= b@.skip(i + 1));
        if x[i] != y[i] {
            return x[i] < y[i];
        }
        i = i + 1;
    }
    i < y.len()
}

/// The value of a row of digits.
pub open spec fn digits_value(s: Seq<char>) -> nat
    decreases s.len(),
{
    if s.len() == 0 {
        0
    } else {
        digits_value(s.drop_last()) * 10 + (s.last() as nat - 48) as nat
    }
}

/// The number that a plain unsigned decimal text names: digits, at least one,
/// and nothing else.
pub open spec fn plain_number(s: Seq<char>) -> Option<nat> {
    if s.len() > 0 && (forall|i: int| 0 <= i < s.len() ==> is_digit(#[trigger] s[i])) {
        Some(digits_value(s))
    } else {
        None
    }
}

proof fn lemma_digits_value_grows(s: Seq<char>, i: int)
    requires
        0 <= i <= s.len(),
    ensures
        digits_value(s.take(i)) <= digits_value(s),
    decreases s.len(),
{
    if i < s.len() {
        assert(s.drop_last().take(i) =~= s.take(i));
        lemma_digits_value_grows(s.drop_last(), i);
    } else {
        assert(s.take(i) =~= s);
    }
}

/// The number that `s` names, where it is a plain unsigned decimal no larger
/// than `max`.
pub fn parse_number(s: &str, max: u64) -> (r: Option<u64>)
    ensures
        match plain_number(s@) {
            Some(n) => r == (if n <= max {
                Some(n as u64)
            } else {
                None
            }),
            None => r is None,
        },
{
    let v = chars_of(s);
    if v.len() == 0 {
        return None;
    }
    let mut value: u64 = 0;
    let mut i: usize = 0;
    while i < v.len()
        invariant
            v@ == s@,
            i <= v@.len(),
            forall|k: int| 0 <= k < i ==> is_digit(#[trigger] v@[k]),
            value == digits_value(v@.take(i as int)),
            value <= max,
        decreases v@.len() - i,
    {
        let c = v[i];
        if !('0' <= c && c <= '9') {
            assert(!is_digit(s@[i as int]));
            return None;
        }
        let d: u64 = (c as u8 - 48) as u64;
        proof {
            assert(v@.take(i + 1).drop_last() =~= v@.take(i as int));
            lemma_digits_value_grows(v@, i + 1);
        }
        if value > (u64::MAX - d) / 10 || value * 10 + d > max {
            return None;
        }
        value = value * 10 + d;
        i = i + 1;
    }
    assert(v@.take(v@.len() as int) =~= v@);
    Some(value)
}

/// The number that a text names where one plus sign may stand in front.
pub open spec fn unsigned_number(s: Seq<char>) -> Option<nat> {
    match stripped(s, "+"@) {
        Some(rest) => plain_number(rest),
        None => plain_number(s),
    }
}

/// The number that `s` names, where it is an unsigned decimal no larger than
/// `max`; one plus sign may stand in front.
pub fn parse_unsigned(s: &str, max: u64) -> (r: Option<u64>)
    ensures
        match unsigned_number(s@) {
            Some(n) => r == (if n <= max {
                Some(n as u64)
            } else {
                None
            }),
            None => r is None,
        },
{
    match strip_prefix(s, "+") {
        Some(rest) => parse_number(rest, max),
        None => parse_number(s, max),
    }
}

proof fn lemma_decimal_digits(n: nat)
    ensures
        decimal(n).len() > 0,
        forall|i: int| 0 <= i < decimal(n).len() ==> is_digit(#[trigger] decimal(n)[i]),
        digits_value(decimal(n)) == n,
    decreases n,
{
    if n < 10 {
        let s = decimal(n);
        assert(s.drop_last() =~= seq![]);
        assert(digits_value(seq![]) == 0);
    } else {
        lemma_decimal_digits(n / 10);
        assert(decimal(n).drop_last() =~= decimal(n / 10));
    }
}

/// Writing a number in decimal and reading it back gives the number.
pub proof fn law_decimal_round_trip(n: nat)
    ensures
        plain_number(decimal(n)) == Some(n),
{
    lemma_decimal_digits(n);
}

/// Different numbers have different decimal forms.
pub proof fn law_decimal_injective(a: nat, b: nat)
    requires
        decimal(a) == decimal(b),
    ensures
        a == b,
{
    lemma_decimal_digits(a);
    lemma_decimal_digits(b);
}

// ---------------------------------------------------------------------------
// What the operations on texts amount to
// ---------------------------------------------------------------------------

/// Whether a stretch of a text is white space throughout.
pub open spec fn all_white(s: Seq<char>, from: int, to: int) -> bool {
    forall|k: int| from <= k < to ==> is_white_space(#[trigger] s[k])
}

proof fn lemma_trim_start_cuts(s: Seq<char>) -> (i: int)
    ensures
        0 <= i <= s.len(),
        trim_start(s) == s.skip(i),
        all_white(s, 0, i),
    decreases s.len(),
{
    if s.len() > 0 && is_white_space(s[0]) {
        let rest = s.drop_first();
        let i = lemma_trim_start_cuts(rest);
        assert(rest.skip(i) =~= s.skip(i + 1));
        assert forall|k: int| 0 <= k < i + 1 implies is_white_space(#[trigger] s[k]) by {
            if k > 0 {
                assert(is_white_space(rest[k - 1]));
            }
        }
        i + 1
    } else {
        assert(s.skip(0) =~= s);
        0
    }
}

proof fn lemma_trim_end_cuts(s: Seq<char>) -> (j: int)
    ensures
        0 <= j <= s.len(),
        trim_end(s) == s.take(j),
        all_white(s, j, s.len() as int),
    decreases s.len(),
{
    if s.len() > 0 && is_white_space(s.last()) {
        let rest = s.drop_last();
        let j = lemma_trim_end_cuts(rest);
        assert(rest.take(j) =~= s.take(j));
        assert forall|k: int| j <= k < s.len() implies is_white_space(#[trigger] s[k]) by {
            if k < s.len() - 1 {
                assert(is_white_space(rest[k]));
            }
        }
        j
    } else {
        assert(s.take(s.len() as int) =~= s);
        s.len() as int
    }
}

/// Trimming takes white space from the two ends of a text and nothing else. A
/// space, a tab and a line break are white space; no visible ASCII character is.
pub proof fn law_trimming_takes_only_white_space(s: Seq<char>, c: char)
    ensures
        exists|i: int, j: int|
            0 <= i <= j <= s.len() && trimmed(s) == #[trigger] s.subrange(i, j) && all_white(s, 0, i)
                && all_white(s, j, s.len() as int),
        c == ' ' || c == '\t' || c == '\n' || c == '\r' ==> is_white_space(c),
        '!' <= c <= '~' ==> !is_white_space(c),
{
    let i = lemma_trim_start_cuts(s);
    let t = s.skip(i);
    let j = lemma_trim_end_cuts(t);
    assert(t.take(j) =~= s.subrange(i, i + j));
    assert forall|k: int| i + j <= k < s.len() implies is_white_space(#[trigger] s[k]) by {
        assert(is_white_space(t[k - i]));
    }
}

/// A text that ends in neither direction in white space is left alone.
pub proof fn law_a_trimmed_text_is_kept(s: Seq<char>)
    requires
        s.len() > 0 ==> !is_white_space(s[0]) && !is_white_space(s.last()),
    ensures
        trimmed(s) == s,
{
}

/// Splitting a text and joining the pieces with the separator gives the text
/// back, and no piece has the separator in it.
pub proof fn law_split_and_join(s: Seq<char>, sep: char)
    ensures
        joined(split_at_each(s, sep), seq![sep]) == s,
        forall|k: int|
            0 <= k < split_at_each(s, sep).len() ==> !(#[trigger] split_at_each(
                s,
                sep,
            )[k]).contains(sep),
    decreases s.len(),
{
    let pieces = split_at_each(s, sep);
    if s.len() == 0 {
        assert(joined(pieces, seq![sep]) =~= s);
    } else {
        let shorter = s.drop_last();
        law_split_and_join(shorter, sep);
        lemma_split_nonempty(shorter, sep);
        let before = split_at_each(shorter, sep);
        assert(s =~= shorter.push(s.last()));
        if s.last() == sep {
            assert(pieces.drop_last() =~= before);
            assert(joined(pieces, seq![sep]) =~= s);
        } else {
            let grown = before.last().push(s.last());
            assert(pieces.drop_last() =~= before.drop_last());
            assert(joined(pieces, seq![sep]) =~= s);
            assert forall|k: int| 0 <= k < pieces.len() implies !(#[trigger] pieces[k]).contains(
                sep,
            ) by {
                if k < pieces.len() - 1 {
                    assert(pieces[k] == before[k]);
                } else if grown.contains(sep) {
                    let at = choose|at: int| 0 <= at < grown.len() && grown[at] == sep;
                    assert(before.last()[at] == sep);
                    assert(before[before.len() - 1].contains(sep));
                }
            }
        }
    }
}

/// A text without the separator is its one piece.
pub proof fn lemma_unsplit(s: Seq<char>, sep: char)
    requires
        !s.contains(sep),
    ensures
        split_at_each(s, sep) == seq![s],
    decreases s.len(),
{
    if s.len() > 0 {
        let shorter = s.drop_last();
        assert forall|k: int| 0 <= k < shorter.len() implies shorter[k] != sep by {
            assert(s[k] == shorter[k]);
            assert(s.contains(s[k]));
        }
        assert(s.contains(s.last()));
        lemma_unsplit(shorter, sep);
        assert(shorter.push(s.last()) =~= s);
        assert(split_at_each(s, sep) =~= seq![s]);
    } else {
        assert(s =~= seq![]);
    }
}

/// A text is cut in two at its first separator, and the cut loses nothing but
/// the separator; a text without one is not cut.
pub proof fn law_halves_meet_at_the_separator(s: Seq<char>, sep: char)
    ensures
        match halves(s, sep) {
            Some((before, behind)) => s == before + seq![sep] + behind && !before.contains(sep),
            None => !s.contains(sep),
        },
    decreases s.len(),
{
    if s.len() > 0 {
        let rest = s.drop_first();
        law_halves_meet_at_the_separator(rest, sep);
        if s[0] == sep {
            assert(s =~= Seq::<char>::empty() + seq![sep] + rest);
        } else {
            match halves(rest, sep) {
                Some((before, behind)) => {
                    assert(s =~= seq![s[0]] + rest);
                    assert(s =~= seq![s[0]] + before + seq![sep] + behind);
                    let first = seq![s[0]] + before;
                    if first.contains(sep) {
                        let at = choose|at: int| 0 <= at < first.len() && first[at] == sep;
                        assert(before[at - 1] == sep);
                    }
                },
                None => {
                    if s.contains(sep) {
                        let at = choose|at: int| 0 <= at < s.len() && s[at] == sep;
                        assert(rest[at - 1] == sep);
                    }
                },
            }
        }
    }
}

/// A text whose first separator stands behind `before` is cut there.
pub proof fn lemma_halves_at_first(before: Seq<char>, sep: char, behind: Seq<char>)
    requires
        !before.contains(sep),
    ensures
        halves(before + seq![sep] + behind, sep) == Some((before, behind)),
{
    let s = before + seq![sep] + behind;
    let n = before.len() as int;
    assert forall|k: int| 0 <= k < n implies s[k] != sep by {
        assert(s[k] == before[k]);
        assert(before.contains(before[k]));
    }
    assert(s[n] == sep);
    lemma_halves_at(s, sep, n);
    assert(s.take(n) =~= before);
    assert(s.skip(n + 1) =~= behind);
}

/// What follows a prefix is what was written behind it, and only a text that
/// starts with the prefix has anything behind it.
pub proof fn law_a_prefix_is_taken_off(s: Seq<char>, prefix: Seq<char>, rest: Seq<char>)
    ensures
        stripped(prefix + rest, prefix) == Some(rest),
        stripped(s, prefix) matches Some(behind) ==> s == prefix + behind,
{
    assert((prefix + rest).skip(prefix.len() as int) =~= rest);
    if prefix.is_prefix_of(s) {
        assert(s =~= prefix + s.skip(prefix.len() as int));
    }
}

/// A text has a part in it exactly where it can be written with the part
/// between two others.
pub proof fn law_parts_stand_between_others(s: Seq<char>, part: Seq<char>, a: Seq<char>, b: Seq<char>)
    ensures
        has_part(a + part + b, part),
        has_part(s, part) ==> exists|left: Seq<char>, right: Seq<char>|
            s == #[trigger] (left + part + right),
{
    assert((a + part + b).subrange(a.len() as int, (a.len() + part.len()) as int) =~= part);
    assert(occurs_at(a + part + b, part, a.len() as int));
    if has_part(s, part) {
        let i = choose|i: int| occurs_at(s, part, i);
        let left = s.take(i);
        let right = s.skip(i + part.len());
        assert(s =~= left + s.subrange(i, i + part.len()) + right);
        assert(s == (left + part) + right);
    }
}

/// Joining two runs of texts is joining each and putting the separator between
/// the two.
pub proof fn law_joined_in_two_runs(a: Seq<Seq<char>>, b: Seq<Seq<char>>, sep: Seq<char>)
    requires
        a.len() > 0,
        b.len() > 0,
    ensures
        joined(a + b, sep) == joined(a, sep) + sep + joined(b, sep),
        joined(seq![a[0]], sep) == a[0],
        joined(Seq::<Seq<char>>::empty(), sep).len() == 0,
    decreases b.len(),
{
    if b.len() == 1 {
        assert((a + b).drop_last() =~= a);
        assert(joined(a + b, sep) =~= joined(a, sep) + sep + joined(b, sep));
    } else {
        law_joined_in_two_runs(a, b.drop_last(), sep);
        assert((a + b).drop_last() =~= a + b.drop_last());
        assert(joined(a + b, sep) =~= joined(a, sep) + sep + joined(b, sep));
    }
}

proof fn lemma_words_from_solid(s: Seq<char>, begun: Seq<char>, behind: Seq<char>)
    requires
        forall|k: int| 0 <= k < s.len() ==> !is_white_space(#[trigger] s[k]),
    ensures
        words_from(s + behind, begun) == words_from(behind, begun + s),
    decreases s.len(),
{
    if s.len() == 0 {
        assert(s + behind =~= behind);
        assert(begun + s =~= begun);
    } else {
        let rest = s.skip(1);
        assert((s + behind).skip(1) =~= rest + behind);
        assert((s + behind)[0] == s[0]);
        lemma_words_from_solid(rest, begun.push(s[0]), behind);
        assert(begun.push(s[0]) + rest =~= begun + s);
    }
}

proof fn lemma_words_from_split(a: Seq<char>, w: char, b: Seq<char>, begun: Seq<char>)
    requires
        is_white_space(w),
    ensures
        words_from(a + seq![w] + b, begun) == words_from(a, begun) + words_from(b, seq![]),
    decreases a.len(),
{
    let s = a + seq![w] + b;
    let ended = if begun.len() == 0 {
        Seq::<Seq<char>>::empty()
    } else {
        seq![begun]
    };
    if a.len() == 0 {
        assert(s[0] == w);
        assert(s.skip(1) =~= b);
        assert(words_from(a, begun) == ended);
    } else {
        assert(s[0] == a[0]);
        assert(s.skip(1) =~= a.skip(1) + seq![w] + b);
        if is_white_space(a[0]) {
            lemma_words_from_split(a.skip(1), w, b, seq![]);
            assert(ended + (words_from(a.skip(1), seq![]) + words_from(b, seq![])) =~= (ended
                + words_from(a.skip(1), seq![])) + words_from(b, seq![]));
        } else {
            lemma_words_from_split(a.skip(1), w, b, begun.push(a[0]));
        }
    }
}

/// White space parts the words of a text, a run of other characters is one
/// word, and an empty text has none.
pub proof fn law_words_are_parted_by_white_space(a: Seq<char>, w: char, b: Seq<char>)
    ensures
        is_white_space(w) ==> words(a + seq![w] + b) == words(a) + words(b),
        a.len() > 0 && (forall|k: int| 0 <= k < a.len() ==> !is_white_space(#[trigger] a[k]))
            ==> words(a) == seq![a],
        a.len() == 0 ==> words(a).len() == 0,
{
    if is_white_space(w) {
        lemma_words_from_split(a, w, b, seq![]);
    }
    if a.len() > 0 && (forall|k: int| 0 <= k < a.len() ==> !is_white_space(#[trigger] a[k])) {
        lemma_words_from_solid(a, seq![], seq![]);
        assert(a + Seq::<char>::empty() =~= a);
        assert(Seq::<char>::empty() + a =~= a);
    }
}

/// Lower-casing changes the capitals from A to Z and leaves every other
/// character, the length and the places alone.
pub proof fn law_lowering_touches_capitals(s: Seq<char>, i: int)
    requires
        0 <= i < s.len(),
    ensures
        ascii_lowered(s).len() == s.len(),
        'A' <= s[i] <= 'Z' ==> ascii_lowered(s)[i] as int - 'a' as int == s[i] as int - 'A' as int,
        !('A' <= s[i] <= 'Z') ==> ascii_lowered(s)[i] == s[i],
{
}

/// A digit behind a number multiplies the number by ten and adds to it; what is
/// not a digit makes it no number.
pub proof fn law_each_digit_weighs_ten_times_the_next(s: Seq<char>, c: char, n: nat)
    requires
        plain_number(s) == Some(n),
    ensures
        '0' <= c <= '9' ==> plain_number(s.push(c)) == Some(10 * n + (c as int - '0' as int) as nat),
        !('0' <= c <= '9') ==> plain_number(s.push(c)) is None,
        plain_number(seq![]) is None,
{
    let longer = s.push(c);
    assert(longer.drop_last() =~= s);
    assert(longer.last() == c);
    if '0' <= c <= '9' {
        assert forall|i: int| 0 <= i < longer.len() implies is_digit(#[trigger] longer[i]) by {
            if i < s.len() {
                assert(is_digit(s[i]));
            }
        }
    } else {
        assert(!is_digit(longer[s.len() as int]));
    }
}

/// A number in digits has no sign in front of it.
pub proof fn lemma_plain_has_no_sign(s: Seq<char>)
    ensures
        plain_number(s) is Some ==> stripped(s, "+"@) is None,
{
    reveal_strlit("+");
    if plain_number(s) is Some && "+"@.is_prefix_of(s) {
        assert(is_digit(s[0]));
        assert(s.subrange(0, 1)[0] == "+"@[0]);
    }
}

/// The first characters of a text are its beginning: all of it, or as many as
/// were asked for.
pub proof fn law_first_chars_are_the_beginning(s: Seq<char>, n: nat)
    ensures
        first_chars(s, n).is_prefix_of(s),
        first_chars(s, n).len() == (if s.len() < n {
            s.len()
        } else {
            n
        }),
{
}

/// Texts are ordered by the first character in which they differ; a text comes
/// before every longer one that begins with it.
pub proof fn law_the_first_difference_orders(
    p: Seq<char>,
    c: char,
    x: Seq<char>,
    d: char,
    y: Seq<char>,
)
    ensures
        c < d ==> lex_less(p + seq![c] + x, p + seq![d] + y),
        c < d ==> !lex_less(p + seq![d] + y, p + seq![c] + x),
        lex_less(p, p + seq![c] + x),
        !lex_less(p + seq![c] + x, p),
    decreases p.len(),
{
    let a = p + seq![c] + x;
    let b = p + seq![d] + y;
    if p.len() > 0 {
        law_the_first_difference_orders(p.skip(1), c, x, d, y);
        assert(a.skip(1) =~= p.skip(1) + seq![c] + x);
        assert(b.skip(1) =~= p.skip(1) + seq![d] + y);
        assert(a[0] == p[0]);
        assert(b[0] == p[0]);
    } else {
        assert(a[0] == c);
        assert(b[0] == d);
    }
}

/// A number is read with one plus sign in front of it as it is without, and a
/// sign alone is no number.
pub proof fn law_one_plus_sign_changes_nothing(s: Seq<char>)
    ensures
        unsigned_number("+"@ + s) == plain_number(s),
        plain_number(s) is Some ==> unsigned_number(s) == plain_number(s),
        unsigned_number("+"@) is None,
        unsigned_number(seq![]) is None,
{
    law_a_prefix_is_taken_off(seq![], "+"@, s);
    lemma_plain_has_no_sign(s);
    law_a_prefix_is_taken_off(seq![], "+"@, seq![]);
    assert("+"@ + Seq::<char>::empty() =~= "+"@);
    reveal_strlit("+");
    assert(!"+"@.is_prefix_of(Seq::<char>::empty()));
}

/// A text in which white space was collapsed is its words with a space between
/// each two: a word stays itself, and of white space alone nothing is left.
pub proof fn law_collapsing_leaves_the_words(a: Seq<char>, w: char, b: Seq<char>)
    requires
        is_white_space(w),
        words(a).len() > 0,
        words(b).len() > 0,
    ensures
        collapsed(a + seq![w] + b) == collapsed(a) + seq![' '] + collapsed(b),
{
    law_words_are_parted_by_white_space(a, w, b);
    law_joined_in_two_runs(words(a), words(b), " "@);
    reveal_strlit(" ");
    assert(" "@ =~= seq![' ']);
}

} // verus!

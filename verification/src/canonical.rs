//! Canonical arguments: what an approval shows and a grant binds.
//!
//! A canonical value holds the members of an object in the order of their keys,
//! so one edit has one canonical form whatever order its keys came in.

use vstd::prelude::*;

use crate::ordered;
use crate::text;

verus! {

/// How a number that is no integer is written, where its text names a finite one.
pub uninterp spec fn number_shown(text: Seq<char>) -> Option<Seq<char>>;

/// `str::parse`, `serde_json::Number::from_f64` and its `Display`: a number is read
/// off its text and written anew. `None` where the text is no number, or names one
/// that is not finite. A number is written in the shortest form that reads back as
/// itself, so what was written is written the same way again. Which texts are
/// numbers, and how each is written, is not stated.
#[verifier::external_body]
fn show_number(text: &str) -> (r: Option<String>)
    ensures
        text::opt_view(r) == number_shown(text@),
        r matches Some(written) ==> number_shown(written@) == Some(written@),
{
    let number = serde_json::Number::from_f64(text.parse().ok()?)?;
    Some(number.to_string())
}

/// A finite number that is no integer, by the text it is written as.
#[derive(Debug, PartialEq, Eq)]
pub struct JsonNumber {
    text: String,
}

impl JsonNumber {
    #[verifier::type_invariant]
    spec fn wf(self) -> bool {
        self.settled()
    }

    /// How the number is written.
    pub closed spec fn written(self) -> Seq<char> {
        self.text@
    }

    /// Whether the number is written the same way again.
    pub open spec fn settled(self) -> bool {
        number_shown(self.written()) == Some(self.written())
    }

    /// The number that a text names, where it names a finite one.
    pub fn read(text: &str) -> (r: Option<JsonNumber>)
        ensures
            match r {
                Some(n) => number_shown(text@) == Some(n.written()),
                None => number_shown(text@) is None,
            },
    {
        match show_number(text) {
            Some(written) => Some(JsonNumber { text: written }),
            None => None,
        }
    }

    pub fn as_str(&self) -> (t: &str)
        ensures
            t@ == self.written(),
            self.settled(),
    {
        proof {
            use_type_invariant(self);
        }
        self.text.as_str()
    }
}

/// A JSON value. A number is an integer with a sign, one without, or no integer.
#[derive(Debug, PartialEq, Eq)]
pub enum JsonValue {
    Null,
    Bool(bool),
    Int(i64),
    UInt(u64),
    Number(JsonNumber),
    Str(String),
    Array(Vec<JsonValue>),
    Object(Vec<(String, JsonValue)>),
}

/// A canonical value. The members of an object stand in the order of their keys,
/// and no key stands twice.
#[derive(Debug, PartialEq, Eq)]
pub enum CanonicalValue {
    Null,
    Bool(bool),
    Int(i64),
    Float(String),
    Str(String),
    Array(Vec<CanonicalValue>),
    Object(Vec<(String, CanonicalValue)>),
}

/// What a value says, whatever the order of its members.
pub enum Meaning {
    Null,
    Bool(bool),
    Int(i64),
    Float(Seq<char>),
    Str(Seq<char>),
    Array(Seq<Meaning>),
    Object(Map<Seq<char>, Meaning>),
}

/// The entries of a list of members. Of a key that stands twice the last counts.
pub open spec fn to_map<V>(pairs: Seq<(Seq<char>, V)>) -> Map<Seq<char>, V>
    decreases pairs.len(),
{
    if pairs.len() == 0 {
        Map::empty()
    } else {
        to_map(pairs.drop_last()).insert(pairs.last().0, pairs.last().1)
    }
}

/// What an integer without a sign means: an integer where it fits in sixty-four
/// bits with a sign, and its digits otherwise.
pub open spec fn count_meaning(n: u64) -> Meaning {
    if n <= i64::MAX {
        Meaning::Int(n as i64)
    } else {
        Meaning::Float(text::decimal(n as nat))
    }
}

pub open spec fn json_meaning(v: JsonValue) -> Meaning
    decreases v,
{
    match v {
        JsonValue::Null => Meaning::Null,
        JsonValue::Bool(b) => Meaning::Bool(b),
        JsonValue::Int(n) => Meaning::Int(n),
        JsonValue::UInt(n) => count_meaning(n),
        JsonValue::Number(n) => Meaning::Float(n.written()),
        JsonValue::Str(s) => Meaning::Str(s@),
        JsonValue::Array(items) => Meaning::Array(json_items(items@)),
        JsonValue::Object(members) => Meaning::Object(to_map(json_pairs(members@))),
    }
}

pub open spec fn json_items(s: Seq<JsonValue>) -> Seq<Meaning>
    decreases s,
{
    if s.len() == 0 {
        seq![]
    } else {
        json_items(s.drop_last()).push(json_meaning(s[s.len() - 1]))
    }
}

pub open spec fn json_pairs(s: Seq<(String, JsonValue)>) -> Seq<(Seq<char>, Meaning)>
    decreases s,
{
    if s.len() == 0 {
        seq![]
    } else {
        json_pairs(s.drop_last()).push((s[s.len() - 1].0@, json_meaning(s[s.len() - 1].1)))
    }
}

pub open spec fn canon_meaning(v: CanonicalValue) -> Meaning
    decreases v,
{
    match v {
        CanonicalValue::Null => Meaning::Null,
        CanonicalValue::Bool(b) => Meaning::Bool(b),
        CanonicalValue::Int(n) => Meaning::Int(n),
        CanonicalValue::Float(t) => Meaning::Float(t@),
        CanonicalValue::Str(s) => Meaning::Str(s@),
        CanonicalValue::Array(items) => Meaning::Array(canon_items(items@)),
        CanonicalValue::Object(members) => Meaning::Object(to_map(canon_pairs(members@))),
    }
}

pub open spec fn canon_items(s: Seq<CanonicalValue>) -> Seq<Meaning>
    decreases s,
{
    if s.len() == 0 {
        seq![]
    } else {
        canon_items(s.drop_last()).push(canon_meaning(s[s.len() - 1]))
    }
}

pub open spec fn canon_pairs(s: Seq<(String, CanonicalValue)>) -> Seq<(Seq<char>, Meaning)>
    decreases s,
{
    if s.len() == 0 {
        seq![]
    } else {
        canon_pairs(s.drop_last()).push((s[s.len() - 1].0@, canon_meaning(s[s.len() - 1].1)))
    }
}

/// Whether the members of every object inside a value stand in order.
pub open spec fn is_canonical(v: CanonicalValue) -> bool
    decreases v,
{
    match v {
        CanonicalValue::Array(items) => all_canonical(items@),
        CanonicalValue::Object(members) => ordered::rising(members@) && members_canonical(members@),
        _ => true,
    }
}

pub open spec fn all_canonical(s: Seq<CanonicalValue>) -> bool
    decreases s,
{
    s.len() == 0 || (all_canonical(s.drop_last()) && is_canonical(s[s.len() - 1]))
}

pub open spec fn members_canonical(s: Seq<(String, CanonicalValue)>) -> bool
    decreases s,
{
    s.len() == 0 || (members_canonical(s.drop_last()) && is_canonical(s[s.len() - 1].1))
}

// ---------------------------------------------------------------------------
// Lists of members
// ---------------------------------------------------------------------------

/// No key stands twice.
pub open spec fn distinct<V>(pairs: Seq<(Seq<char>, V)>) -> bool {
    forall|i: int, j: int|
        0 <= i < j < pairs.len() ==> #[trigger] pairs[i].0 != #[trigger] pairs[j].0
}

proof fn lemma_to_map<V>(pairs: Seq<(Seq<char>, V)>)
    requires
        distinct(pairs),
    ensures
        forall|i: int|
            0 <= i < pairs.len() ==> to_map(pairs).dom().contains((#[trigger] pairs[i]).0)
                && to_map(pairs)[pairs[i].0] == pairs[i].1,
        forall|k: Seq<char>| #[trigger]
            to_map(pairs).dom().contains(k) ==> exists|i: int|
                0 <= i < pairs.len() && #[trigger] pairs[i].0 == k,
    decreases pairs.len(),
{
    if pairs.len() > 0 {
        let before = pairs.drop_last();
        assert(distinct(before)) by {
            assert forall|i: int, j: int| 0 <= i < j < before.len() implies #[trigger] before[i].0
                != #[trigger] before[j].0 by {
                assert(pairs[i].0 != pairs[j].0);
            }
        }
        lemma_to_map(before);
        assert forall|i: int| 0 <= i < pairs.len() implies to_map(pairs).dom().contains(
            (#[trigger] pairs[i]).0,
        ) && to_map(pairs)[pairs[i].0] == pairs[i].1 by {
            if i < pairs.len() - 1 {
                assert(before[i] == pairs[i]);
                assert(pairs[i].0 != pairs[pairs.len() - 1].0);
            }
        }
        assert forall|k: Seq<char>| #[trigger] to_map(pairs).dom().contains(k) implies exists|i: int|
            0 <= i < pairs.len() && #[trigger] pairs[i].0 == k by {
            if k == pairs.last().0 {
                assert(pairs[pairs.len() - 1].0 == k);
            } else {
                assert(to_map(before).dom().contains(k));
                let i = choose|i: int| 0 <= i < before.len() && #[trigger] before[i].0 == k;
                assert(pairs[i].0 == k);
            }
        }
    }
}

/// Lists with the same entries and no key twice mean the same map.
proof fn lemma_insert_pair<V>(pairs: Seq<(Seq<char>, V)>, i: int, k: Seq<char>, v: V)
    requires
        distinct(pairs),
        0 <= i <= pairs.len(),
        forall|j: int| 0 <= j < pairs.len() ==> #[trigger] pairs[j].0 != k,
    ensures
        distinct(pairs.insert(i, (k, v))),
        to_map(pairs.insert(i, (k, v))) == to_map(pairs).insert(k, v),
{
    let grown = pairs.insert(i, (k, v));
    assert forall|a: int, b: int| 0 <= a < b < grown.len() implies #[trigger] grown[a].0
        != #[trigger] grown[b].0 by {
        if a < i && b < i {
            assert(grown[a] == pairs[a] && grown[b] == pairs[b]);
        } else if a < i && b > i {
            assert(grown[a] == pairs[a] && grown[b] == pairs[b - 1]);
        } else if a > i {
            assert(grown[a] == pairs[a - 1] && grown[b] == pairs[b - 1]);
        } else if a == i {
            assert(grown[b] == pairs[b - 1]);
        } else {
            assert(grown[a] == pairs[a]);
        }
    }
    lemma_to_map(pairs);
    lemma_to_map(grown);
    let wanted = to_map(pairs).insert(k, v);
    assert forall|key: Seq<char>|
        #![trigger to_map(grown).dom().contains(key)]
        #![trigger wanted.dom().contains(key)]
        to_map(grown).dom().contains(key) == wanted.dom().contains(key) && (to_map(
            grown,
        ).dom().contains(key) ==> to_map(grown)[key] == wanted[key]) by {
        if key == k {
            assert(grown[i].0 == k);
        } else {
            if to_map(grown).dom().contains(key) {
                let a = choose|a: int| 0 <= a < grown.len() && #[trigger] grown[a].0 == key;
                if a < i {
                    assert(grown[a] == pairs[a]);
                } else {
                    assert(grown[a] == pairs[a - 1]);
                }
            }
            if to_map(pairs).dom().contains(key) {
                let a = choose|a: int| 0 <= a < pairs.len() && #[trigger] pairs[a].0 == key;
                if a < i {
                    assert(grown[a] == pairs[a]);
                } else {
                    assert(grown[a + 1] == pairs[a]);
                }
            }
        }
    }
    assert(to_map(grown) =~= wanted);
}

proof fn lemma_update_pair<V>(pairs: Seq<(Seq<char>, V)>, i: int, k: Seq<char>, v: V)
    requires
        distinct(pairs),
        0 <= i < pairs.len(),
        pairs[i].0 == k,
    ensures
        distinct(pairs.update(i, (k, v))),
        to_map(pairs.update(i, (k, v))) == to_map(pairs).insert(k, v),
{
    let changed = pairs.update(i, (k, v));
    assert forall|a: int, b: int| 0 <= a < b < changed.len() implies #[trigger] changed[a].0
        != #[trigger] changed[b].0 by {
        assert(changed[a].0 == pairs[a].0 && changed[b].0 == pairs[b].0);
    }
    lemma_to_map(pairs);
    lemma_to_map(changed);
    let wanted = to_map(pairs).insert(k, v);
    assert forall|key: Seq<char>|
        #![trigger to_map(changed).dom().contains(key)]
        #![trigger wanted.dom().contains(key)]
        to_map(changed).dom().contains(key) == wanted.dom().contains(key) && (to_map(
            changed,
        ).dom().contains(key) ==> to_map(changed)[key] == wanted[key]) by {
        if key == k {
            assert(changed[i].0 == k);
        } else {
            if to_map(changed).dom().contains(key) {
                let a = choose|a: int| 0 <= a < changed.len() && #[trigger] changed[a].0 == key;
                assert(changed[a].0 == pairs[a].0);
            }
            if to_map(pairs).dom().contains(key) {
                let a = choose|a: int| 0 <= a < pairs.len() && #[trigger] pairs[a].0 == key;
                assert(changed[a] == pairs[a]);
            }
        }
    }
    assert(to_map(changed) =~= wanted);
}

proof fn lemma_canon_pairs(s: Seq<(String, CanonicalValue)>)
    ensures
        canon_pairs(s).len() == s.len(),
        forall|i: int|
            0 <= i < s.len() ==> #[trigger] canon_pairs(s)[i] == (s[i].0@, canon_meaning(s[i].1)),
    decreases s.len(),
{
    if s.len() > 0 {
        lemma_canon_pairs(s.drop_last());
    }
}

proof fn lemma_members_canonical(s: Seq<(String, CanonicalValue)>)
    ensures
        members_canonical(s) == (forall|i: int|
            0 <= i < s.len() ==> is_canonical((#[trigger] s[i]).1)),
    decreases s.len(),
{
    if s.len() > 0 {
        lemma_members_canonical(s.drop_last());
        if members_canonical(s) {
            assert forall|i: int| 0 <= i < s.len() implies is_canonical((#[trigger] s[i]).1) by {
                if i < s.len() - 1 {
                    assert(s.drop_last()[i] == s[i]);
                }
            }
        } else if members_canonical(s.drop_last()) {
            assert(!is_canonical(s[s.len() - 1].1));
        } else {
            let i = choose|i: int|
                0 <= i < s.drop_last().len() && !is_canonical((#[trigger] s.drop_last()[i]).1);
            assert(!is_canonical(s[i].1));
        }
    }
}

proof fn lemma_rising_distinct(s: Seq<(String, CanonicalValue)>)
    requires
        ordered::rising(s),
    ensures
        distinct(canon_pairs(s)),
{
    lemma_canon_pairs(s);
    let pairs = canon_pairs(s);
    assert forall|i: int, j: int| 0 <= i < j < pairs.len() implies #[trigger] pairs[i].0
        != #[trigger] pairs[j].0 by {
        assert(text::lex_less(s[i].0@, s[j].0@));
        text::lemma_lex_irreflexive(s[i].0@);
    }
}

/// Put a member where its key belongs; one that was there is replaced.
fn put_member(members: &mut Vec<(String, CanonicalValue)>, key: String, value: CanonicalValue)
    requires
        ordered::rising(old(members)@),
        members_canonical(old(members)@),
        is_canonical(value),
    ensures
        ordered::rising(final(members)@),
        members_canonical(final(members)@),
        to_map(canon_pairs(final(members)@)) == to_map(canon_pairs(old(members)@)).insert(
            key@,
            canon_meaning(value),
        ),
{
    let ghost before = members@;
    let ghost m = canon_meaning(value);
    let ghost k = key@;
    proof {
        lemma_rising_distinct(before);
        lemma_canon_pairs(before);
        lemma_members_canonical(before);
    }
    let (i, found) = ordered::place_of(members, key.as_str());
    if found {
        let _replaced = members.remove(i);
        members.insert(i, (key, value));
        proof {
            let after = members@;
            assert(after =~= before.update(i as int, (key, value)));
            lemma_canon_pairs(after);
            assert(canon_pairs(after) =~= canon_pairs(before).update(i as int, (k, m)));
            lemma_update_pair(canon_pairs(before), i as int, k, m);
            assert forall|a: int, b: int| 0 <= a < b < after.len() implies text::lex_less(
                #[trigger] after[a].0@,
                #[trigger] after[b].0@,
            ) by {
                assert(text::lex_less(before[a].0@, before[b].0@));
            }
            lemma_members_canonical(after);
        }
    } else {
        proof {
            assert forall|j: int| 0 <= j < canon_pairs(before).len() implies #[trigger] canon_pairs(
                before,
            )[j].0 != k by {
                if j < i {
                    assert(text::lex_less(before[j].0@, k));
                } else {
                    assert(text::lex_less(k, before[j].0@));
                }
                text::lemma_lex_irreflexive(k);
            }
        }
        members.insert(i, (key, value));
        proof {
            let after = members@;
            assert(after =~= before.insert(i as int, (key, value)));
            lemma_canon_pairs(after);
            assert(canon_pairs(after) =~= canon_pairs(before).insert(i as int, (k, m)));
            lemma_insert_pair(canon_pairs(before), i as int, k, m);
            assert forall|a: int, b: int| 0 <= a < b < after.len() implies text::lex_less(
                #[trigger] after[a].0@,
                #[trigger] after[b].0@,
            ) by {
                if b < i {
                    assert(text::lex_less(before[a].0@, before[b].0@));
                } else if b == i {
                    assert(text::lex_less(before[a].0@, k));
                } else if a < i {
                    assert(text::lex_less(before[a].0@, before[b - 1].0@));
                } else if a == i {
                    assert(text::lex_less(k, before[b - 1].0@));
                } else {
                    assert(text::lex_less(before[a - 1].0@, before[b - 1].0@));
                }
            }
            assert forall|a: int| 0 <= a < after.len() implies is_canonical(
                (#[trigger] after[a]).1,
            ) by {
                if a < i {
                    assert(after[a] == before[a]);
                } else if a > i {
                    assert(after[a] == before[a - 1]);
                }
            }
            lemma_members_canonical(after);
        }
    }
}

// ---------------------------------------------------------------------------
// Conversion
// ---------------------------------------------------------------------------

/// The canonical form of JSON arguments. An integer that does not fit keeps its
/// digits. Where every integer fits, what is shown of the canonical form says what
/// the arguments did, at every depth.
pub fn json_to_canonical(value: &JsonValue) -> (r: CanonicalValue)
    ensures
        is_canonical(r),
        canon_meaning(r) == json_meaning(*value),
        numbers_settled(*value),
        integers_fit(*value) ==> shown_meaning(r) == json_meaning(*value),
    decreases value,
{
    let r = match value {
        JsonValue::Null => CanonicalValue::Null,
        JsonValue::Bool(b) => CanonicalValue::Bool(*b),
        JsonValue::Int(n) => CanonicalValue::Int(*n),
        JsonValue::UInt(n) => if *n <= i64::MAX as u64 {
            CanonicalValue::Int(*n as i64)
        } else {
            CanonicalValue::Float(text::decimal_of(*n))
        },
        JsonValue::Number(n) => CanonicalValue::Float(n.as_str().to_owned()),
        JsonValue::Str(s) => CanonicalValue::Str(s.clone()),
        JsonValue::Array(items) => CanonicalValue::Array(items_to_canonical(items)),
        JsonValue::Object(members) => CanonicalValue::Object(members_to_canonical(members)),
    };
    proof {
        if integers_fit(*value) {
            law_arguments_round_trip(*value, r);
        }
    }
    r
}

fn items_to_canonical(items: &Vec<JsonValue>) -> (r: Vec<CanonicalValue>)
    ensures
        all_canonical(r@),
        canon_items(r@) == json_items(items@),
        items_settled(items@),
    decreases items,
{
    let mut r: Vec<CanonicalValue> = Vec::new();
    let mut i: usize = 0;
    assert(items@.take(0) =~= seq![]);
    while i < items.len()
        invariant
            i <= items@.len(),
            all_canonical(r@),
            canon_items(r@) == json_items(items@.take(i as int)),
            items_settled(items@.take(i as int)),
        decreases items@.len() - i,
    {
        let ghost before = r@;
        let item = json_to_canonical(&items[i]);
        r.push(item);
        assert(r@.drop_last() =~= before);
        assert(items@.take(i + 1).drop_last() =~= items@.take(i as int));
        i = i + 1;
    }
    assert(items@.take(items@.len() as int) =~= items@);
    r
}

fn members_to_canonical(members: &Vec<(String, JsonValue)>) -> (r: Vec<(String, CanonicalValue)>)
    ensures
        ordered::rising(r@),
        members_canonical(r@),
        to_map(canon_pairs(r@)) == to_map(json_pairs(members@)),
        members_settled(members@),
    decreases members,
{
    let mut r: Vec<(String, CanonicalValue)> = Vec::new();
    let mut i: usize = 0;
    assert(members@.take(0) =~= seq![]);
    while i < members.len()
        invariant
            i <= members@.len(),
            ordered::rising(r@),
            members_canonical(r@),
            to_map(canon_pairs(r@)) == to_map(json_pairs(members@.take(i as int))),
            members_settled(members@.take(i as int)),
        decreases members@.len() - i,
    {
        let value = json_to_canonical(&members[i].1);
        put_member(&mut r, members[i].0.clone(), value);
        proof {
            let done = members@.take(i + 1);
            assert(done.drop_last() =~= members@.take(i as int));
            assert(json_pairs(done).drop_last() =~= json_pairs(members@.take(i as int)));
        }
        i = i + 1;
    }
    assert(members@.take(members@.len() as int) =~= members@);
    r
}

/// What a value says once it is shown: numbers that are no integers are written
/// anew, and what is no finite number is null.
pub open spec fn shown_meaning(v: CanonicalValue) -> Meaning
    decreases v,
{
    match v {
        CanonicalValue::Null => Meaning::Null,
        CanonicalValue::Bool(b) => Meaning::Bool(b),
        CanonicalValue::Int(n) => Meaning::Int(n),
        CanonicalValue::Float(t) => match number_shown(t@) {
            Some(written) => Meaning::Float(written),
            None => Meaning::Null,
        },
        CanonicalValue::Str(s) => Meaning::Str(s@),
        CanonicalValue::Array(items) => Meaning::Array(shown_items(items@)),
        CanonicalValue::Object(members) => Meaning::Object(to_map(shown_pairs(members@))),
    }
}

pub open spec fn shown_items(s: Seq<CanonicalValue>) -> Seq<Meaning>
    decreases s,
{
    if s.len() == 0 {
        seq![]
    } else {
        shown_items(s.drop_last()).push(shown_meaning(s[s.len() - 1]))
    }
}

pub open spec fn shown_pairs(s: Seq<(String, CanonicalValue)>) -> Seq<(Seq<char>, Meaning)>
    decreases s,
{
    if s.len() == 0 {
        seq![]
    } else {
        shown_pairs(s.drop_last()).push((s[s.len() - 1].0@, shown_meaning(s[s.len() - 1].1)))
    }
}

/// The JSON form of canonical arguments, for a human to read.
pub fn canonical_to_json(value: &CanonicalValue) -> (r: JsonValue)
    ensures
        json_meaning(r) == shown_meaning(*value),
    decreases value,
{
    match value {
        CanonicalValue::Null => JsonValue::Null,
        CanonicalValue::Bool(b) => JsonValue::Bool(*b),
        CanonicalValue::Int(n) => JsonValue::Int(*n),
        CanonicalValue::Float(t) => match JsonNumber::read(t.as_str()) {
            Some(number) => JsonValue::Number(number),
            None => JsonValue::Null,
        },
        CanonicalValue::Str(s) => JsonValue::Str(s.clone()),
        CanonicalValue::Array(items) => JsonValue::Array(items_to_json(items)),
        CanonicalValue::Object(members) => JsonValue::Object(members_to_json(members)),
    }
}

fn items_to_json(items: &Vec<CanonicalValue>) -> (r: Vec<JsonValue>)
    ensures
        json_items(r@) == shown_items(items@),
    decreases items,
{
    let mut r: Vec<JsonValue> = Vec::new();
    let mut i: usize = 0;
    assert(items@.take(0) =~= seq![]);
    while i < items.len()
        invariant
            i <= items@.len(),
            json_items(r@) == shown_items(items@.take(i as int)),
        decreases items@.len() - i,
    {
        let ghost before = r@;
        let item = canonical_to_json(&items[i]);
        r.push(item);
        assert(r@.drop_last() =~= before);
        assert(items@.take(i + 1).drop_last() =~= items@.take(i as int));
        i = i + 1;
    }
    assert(items@.take(items@.len() as int) =~= items@);
    r
}

fn members_to_json(members: &Vec<(String, CanonicalValue)>) -> (r: Vec<(String, JsonValue)>)
    ensures
        json_pairs(r@) == shown_pairs(members@),
    decreases members,
{
    let mut r: Vec<(String, JsonValue)> = Vec::new();
    let mut i: usize = 0;
    assert(members@.take(0) =~= seq![]);
    while i < members.len()
        invariant
            i <= members@.len(),
            json_pairs(r@) == shown_pairs(members@.take(i as int)),
        decreases members@.len() - i,
    {
        let ghost before = r@;
        let value = canonical_to_json(&members[i].1);
        r.push((members[i].0.clone(), value));
        assert(r@.drop_last() =~= before);
        assert(members@.take(i + 1).drop_last() =~= members@.take(i as int));
        i = i + 1;
    }
    assert(members@.take(members@.len() as int) =~= members@);
    r
}

/// Whether every number in a value is shown as it is held.
pub open spec fn shown_as_held(v: CanonicalValue) -> bool
    decreases v,
{
    match v {
        CanonicalValue::Float(t) => number_shown(t@) == Some(t@),
        CanonicalValue::Array(items) => items_shown_as_held(items@),
        CanonicalValue::Object(members) => members_shown_as_held(members@),
        _ => true,
    }
}

pub open spec fn items_shown_as_held(s: Seq<CanonicalValue>) -> bool
    decreases s,
{
    s.len() == 0 || (items_shown_as_held(s.drop_last()) && shown_as_held(s[s.len() - 1]))
}

pub open spec fn members_shown_as_held(s: Seq<(String, CanonicalValue)>) -> bool
    decreases s,
{
    s.len() == 0 || (members_shown_as_held(s.drop_last()) && shown_as_held(s[s.len() - 1].1))
}

/// What a human reads is what binds: shown arguments say what the held ones do,
/// wherever their numbers are written as they are held.
pub proof fn law_what_is_shown_is_what_binds(v: CanonicalValue)
    requires
        shown_as_held(v),
    ensures
        shown_meaning(v) == canon_meaning(v),
    decreases v,
{
    match v {
        CanonicalValue::Array(items) => {
            lemma_items_shown(items@);
        },
        CanonicalValue::Object(members) => {
            lemma_members_shown(members@);
        },
        _ => {},
    }
}

proof fn lemma_items_shown(s: Seq<CanonicalValue>)
    requires
        items_shown_as_held(s),
    ensures
        shown_items(s) == canon_items(s),
    decreases s,
{
    if s.len() > 0 {
        lemma_items_shown(s.drop_last());
        law_what_is_shown_is_what_binds(s[s.len() - 1]);
    }
}

proof fn lemma_members_shown(s: Seq<(String, CanonicalValue)>)
    requires
        members_shown_as_held(s),
    ensures
        shown_pairs(s) == canon_pairs(s),
    decreases s,
{
    if s.len() > 0 {
        lemma_members_shown(s.drop_last());
        law_what_is_shown_is_what_binds(s[s.len() - 1].1);
    }
}

/// Whether every number in a value is written the same way again. Every value
/// that is not ghost has this.
pub open spec fn numbers_settled(v: JsonValue) -> bool
    decreases v,
{
    match v {
        JsonValue::Number(n) => n.settled(),
        JsonValue::Array(items) => items_settled(items@),
        JsonValue::Object(members) => members_settled(members@),
        _ => true,
    }
}

pub open spec fn items_settled(s: Seq<JsonValue>) -> bool
    decreases s,
{
    s.len() == 0 || (items_settled(s.drop_last()) && numbers_settled(s[s.len() - 1]))
}

pub open spec fn members_settled(s: Seq<(String, JsonValue)>) -> bool
    decreases s,
{
    s.len() == 0 || (members_settled(s.drop_last()) && numbers_settled(s[s.len() - 1].1))
}

/// Whether every integer in a value fits in sixty-four bits with a sign.
pub open spec fn integers_fit(v: JsonValue) -> bool
    decreases v,
{
    match v {
        JsonValue::UInt(n) => n <= i64::MAX,
        JsonValue::Array(items) => items_fit(items@),
        JsonValue::Object(members) => members_fit(members@),
        _ => true,
    }
}

pub open spec fn items_fit(s: Seq<JsonValue>) -> bool
    decreases s,
{
    s.len() == 0 || (items_fit(s.drop_last()) && integers_fit(s[s.len() - 1]))
}

pub open spec fn members_fit(s: Seq<(String, JsonValue)>) -> bool
    decreases s,
{
    s.len() == 0 || (members_fit(s.drop_last()) && integers_fit(s[s.len() - 1].1))
}

/// Arguments come back as they were: the canonical form of a JSON value whose
/// integers all fit is shown as what the value says, at every depth and whatever
/// the order of its keys.
pub proof fn law_arguments_round_trip(v: JsonValue, c: CanonicalValue)
    requires
        numbers_settled(v),
        integers_fit(v),
        is_canonical(c),
        canon_meaning(c) == json_meaning(v),
    ensures
        shown_meaning(c) == json_meaning(v),
{
    lemma_held(v, c);
    law_what_is_shown_is_what_binds(c);
}

proof fn lemma_held(v: JsonValue, c: CanonicalValue)
    requires
        numbers_settled(v),
        integers_fit(v),
        is_canonical(c),
        canon_meaning(c) == json_meaning(v),
    ensures
        shown_as_held(c),
    decreases c,
{
    match (v, c) {
        (JsonValue::Array(x), CanonicalValue::Array(y)) => {
            lemma_items_held(x@, y@);
        },
        (JsonValue::Object(x), CanonicalValue::Object(y)) => {
            lemma_rising_distinct(y@);
            lemma_to_map(canon_pairs(y@));
            lemma_canon_pairs(y@);
            lemma_members_canonical(y@);
            assert forall|i: int| 0 <= i < y@.len() implies to_map(json_pairs(x@)).dom().contains(
                (#[trigger] y@[i]).0@,
            ) && to_map(json_pairs(x@))[y@[i].0@] == canon_meaning(y@[i].1) && is_canonical(
                y@[i].1,
            ) by {
                assert(canon_pairs(y@)[i] == (y@[i].0@, canon_meaning(y@[i].1)));
            }
            lemma_members_held(x@, y@);
        },
        _ => {},
    }
}

proof fn lemma_items_held(x: Seq<JsonValue>, y: Seq<CanonicalValue>)
    requires
        items_settled(x),
        items_fit(x),
        all_canonical(y),
        canon_items(y) == json_items(x),
    ensures
        items_shown_as_held(y),
    decreases y,
{
    if y.len() > 0 {
        let p = canon_items(y);
        assert(p.len() > 0);
        assert(x.len() > 0);
        assert(p.drop_last() =~= canon_items(y.drop_last()));
        assert(json_items(x).drop_last() =~= json_items(x.drop_last()));
        assert(p.last() == json_items(x).last());
        lemma_items_held(x.drop_last(), y.drop_last());
        lemma_held(x[x.len() - 1], y[y.len() - 1]);
    }
}

proof fn lemma_members_held(x: Seq<(String, JsonValue)>, y: Seq<(String, CanonicalValue)>)
    requires
        members_settled(x),
        members_fit(x),
        forall|i: int|
            0 <= i < y.len() ==> to_map(json_pairs(x)).dom().contains((#[trigger] y[i]).0@)
                && to_map(json_pairs(x))[y[i].0@] == canon_meaning(y[i].1) && is_canonical(y[i].1),
    ensures
        members_shown_as_held(y),
    decreases y,
{
    if y.len() > 0 {
        let rest = y.drop_last();
        assert forall|i: int| 0 <= i < rest.len() implies to_map(json_pairs(x)).dom().contains(
            (#[trigger] rest[i]).0@,
        ) && to_map(json_pairs(x))[rest[i].0@] == canon_meaning(rest[i].1) && is_canonical(
            rest[i].1,
        ) by {
            assert(rest[i] == y[i]);
        }
        lemma_members_held(x, rest);
        let last = y[y.len() - 1];
        let m = lemma_member_behind(x, last.0@);
        lemma_held(m, last.1);
    }
}

/// The member that gives a key its value.
proof fn lemma_member_behind(x: Seq<(String, JsonValue)>, k: Seq<char>) -> (m: JsonValue)
    requires
        members_settled(x),
        members_fit(x),
        to_map(json_pairs(x)).dom().contains(k),
    ensures
        numbers_settled(m),
        integers_fit(m),
        json_meaning(m) == to_map(json_pairs(x))[k],
    decreases x.len(),
{
    assert(x.len() > 0);
    assert(json_pairs(x).drop_last() =~= json_pairs(x.drop_last()));
    if x[x.len() - 1].0@ == k {
        x[x.len() - 1].1
    } else {
        lemma_member_behind(x.drop_last(), k)
    }
}

proof fn lemma_json_pairs(s: Seq<(String, JsonValue)>)
    ensures
        json_pairs(s).len() == s.len(),
        forall|i: int|
            0 <= i < s.len() ==> #[trigger] json_pairs(s)[i] == (s[i].0@, json_meaning(s[i].1)),
    decreases s.len(),
{
    if s.len() > 0 {
        lemma_json_pairs(s.drop_last());
    }
}

/// The order of the keys says nothing: objects with the same members, and no key
/// twice, say the same.
pub proof fn law_key_order_says_nothing(x: Vec<(String, JsonValue)>, y: Vec<(String, JsonValue)>)
    requires
        distinct(json_pairs(x@)),
        distinct(json_pairs(y@)),
        forall|i: int| 0 <= i < x@.len() ==> y@.contains(#[trigger] x@[i]),
        forall|i: int| 0 <= i < y@.len() ==> x@.contains(#[trigger] y@[i]),
    ensures
        json_meaning(JsonValue::Object(x)) == json_meaning(JsonValue::Object(y)),
{
    lemma_covers(x@, y@);
    lemma_covers(y@, x@);
    assert(to_map(json_pairs(x@)) =~= to_map(json_pairs(y@)));
}

proof fn lemma_covers(x: Seq<(String, JsonValue)>, y: Seq<(String, JsonValue)>)
    requires
        distinct(json_pairs(x)),
        distinct(json_pairs(y)),
        forall|i: int| 0 <= i < x.len() ==> y.contains(#[trigger] x[i]),
    ensures
        forall|k: Seq<char>| #[trigger]
            to_map(json_pairs(x)).dom().contains(k) ==> to_map(json_pairs(y)).dom().contains(k)
                && to_map(json_pairs(y))[k] == to_map(json_pairs(x))[k],
{
    lemma_json_pairs(x);
    lemma_json_pairs(y);
    lemma_to_map(json_pairs(x));
    lemma_to_map(json_pairs(y));
    assert forall|k: Seq<char>| #[trigger] to_map(json_pairs(x)).dom().contains(k) implies to_map(
        json_pairs(y),
    ).dom().contains(k) && to_map(json_pairs(y))[k] == to_map(json_pairs(x))[k] by {
        let i = choose|i: int| 0 <= i < json_pairs(x).len() && #[trigger] json_pairs(x)[i].0 == k;
        let j = choose|j: int| 0 <= j < y.len() && y[j] == x[i];
        assert(json_pairs(y)[j] == json_pairs(x)[i]);
    }
}

/// A copy of a canonical value, in canonical form.
pub fn copy_canonical(value: &CanonicalValue) -> (r: CanonicalValue)
    ensures
        is_canonical(r),
        canon_meaning(r) == canon_meaning(*value),
    decreases value,
{
    match value {
        CanonicalValue::Null => CanonicalValue::Null,
        CanonicalValue::Bool(b) => CanonicalValue::Bool(*b),
        CanonicalValue::Int(n) => CanonicalValue::Int(*n),
        CanonicalValue::Float(t) => CanonicalValue::Float(t.clone()),
        CanonicalValue::Str(s) => CanonicalValue::Str(s.clone()),
        CanonicalValue::Array(items) => CanonicalValue::Array(copy_items(items)),
        CanonicalValue::Object(members) => CanonicalValue::Object(copy_members(members)),
    }
}

fn copy_items(items: &Vec<CanonicalValue>) -> (r: Vec<CanonicalValue>)
    ensures
        all_canonical(r@),
        canon_items(r@) == canon_items(items@),
    decreases items,
{
    let mut r: Vec<CanonicalValue> = Vec::new();
    let mut i: usize = 0;
    assert(items@.take(0) =~= seq![]);
    while i < items.len()
        invariant
            i <= items@.len(),
            all_canonical(r@),
            canon_items(r@) == canon_items(items@.take(i as int)),
        decreases items@.len() - i,
    {
        let ghost before = r@;
        let item = copy_canonical(&items[i]);
        r.push(item);
        assert(r@.drop_last() =~= before);
        assert(items@.take(i + 1).drop_last() =~= items@.take(i as int));
        i = i + 1;
    }
    assert(items@.take(items@.len() as int) =~= items@);
    r
}

fn copy_members(members: &Vec<(String, CanonicalValue)>) -> (r: Vec<(String, CanonicalValue)>)
    ensures
        ordered::rising(r@),
        members_canonical(r@),
        to_map(canon_pairs(r@)) == to_map(canon_pairs(members@)),
    decreases members,
{
    let mut r: Vec<(String, CanonicalValue)> = Vec::new();
    let mut i: usize = 0;
    assert(members@.take(0) =~= seq![]);
    while i < members.len()
        invariant
            i <= members@.len(),
            ordered::rising(r@),
            members_canonical(r@),
            to_map(canon_pairs(r@)) == to_map(canon_pairs(members@.take(i as int))),
        decreases members@.len() - i,
    {
        let value = copy_canonical(&members[i].1);
        put_member(&mut r, members[i].0.clone(), value);
        proof {
            let done = members@.take(i + 1);
            assert(done.drop_last() =~= members@.take(i as int));
            assert(canon_pairs(done).drop_last() =~= canon_pairs(members@.take(i as int)));
        }
        i = i + 1;
    }
    assert(members@.take(members@.len() as int) =~= members@);
    r
}

// ---------------------------------------------------------------------------
// Members
// ---------------------------------------------------------------------------

/// The value of the first member with a key.
pub open spec fn member(members: Seq<(String, CanonicalValue)>, key: Seq<char>) -> Option<
    CanonicalValue,
>
    decreases members.len(),
{
    if members.len() == 0 {
        None
    } else if members[0].0@ == key {
        Some(members[0].1)
    } else {
        member(members.skip(1), key)
    }
}

pub fn find_member<'a>(members: &'a Vec<(String, CanonicalValue)>, key: &str) -> (r: Option<
    &'a CanonicalValue,
>)
    ensures
        match r {
            Some(v) => member(members@, key@) == Some(*v),
            None => member(members@, key@) is None,
        },
{
    let mut i: usize = 0;
    assert(members@.skip(0) =~= members@);
    while i < members.len()
        invariant
            i <= members@.len(),
            member(members@, key@) == member(members@.skip(i as int), key@),
        decreases members@.len() - i,
    {
        assert(members@.skip(i as int).skip(1) =~= members@.skip(i + 1));
        if text::same(members[i].0.as_str(), key) {
            return Some(&members[i].1);
        }
        i = i + 1;
    }
    None
}

/// The members of an object; none of any other value.
pub open spec fn members_of(v: JsonValue) -> Map<Seq<char>, Meaning> {
    match json_meaning(v) {
        Meaning::Object(m) => m,
        _ => Map::empty(),
    }
}

pub fn empty_object() -> (v: JsonValue)
    ensures
        v is Object,
        members_of(v) == Map::<Seq<char>, Meaning>::empty(),
{
    JsonValue::Object(Vec::new())
}

/// A count, as an integer.
pub fn count(n: u64) -> (v: JsonValue)
    ensures
        json_meaning(v) == count_meaning(n),
{
    if n <= i64::MAX as u64 {
        JsonValue::Int(n as i64)
    } else {
        JsonValue::UInt(n)
    }
}

pub fn texts(items: &Vec<String>) -> (v: JsonValue)
    ensures
        json_meaning(v) == Meaning::Array(
            text::views(items@).map_values(|t: Seq<char>| Meaning::Str(t)),
        ),
{
    let mut r: Vec<JsonValue> = Vec::new();
    let ghost all = text::views(items@).map_values(|t: Seq<char>| Meaning::Str(t));
    let mut i: usize = 0;
    assert(all.take(0) =~= seq![]);
    while i < items.len()
        invariant
            i <= items@.len(),
            r@.len() == i,
            all == text::views(items@).map_values(|t: Seq<char>| Meaning::Str(t)),
            json_items(r@) == all.take(i as int),
        decreases items@.len() - i,
    {
        let ghost before = r@;
        r.push(JsonValue::Str(items[i].clone()));
        assert(r@.drop_last() =~= before);
        assert(json_meaning(r@[i as int]) == Meaning::Str(items@[i as int]@));
        assert(all.take(i + 1) =~= all.take(i as int).push(Meaning::Str(items@[i as int]@)));
        i = i + 1;
    }
    assert(all.take(items@.len() as int) =~= all);
    JsonValue::Array(r)
}

/// An object without the members of a key.
pub fn without_member(object: JsonValue, key: &str) -> (r: JsonValue)
    requires
        object is Object,
    ensures
        r is Object,
        members_of(r) == members_of(object).remove(key@),
{
    let members = match object {
        JsonValue::Object(m) => m,
        _ => Vec::new(),
    };
    let mut members = members;
    let ghost all = members@;
    let mut kept: Vec<(String, JsonValue)> = Vec::new();
    let ghost mut done: int = 0;
    assert(all.skip(0) =~= all);
    assert(all.take(0) =~= seq![]);
    assert(to_map(json_pairs(seq![])) =~= to_map(json_pairs(seq![])).remove(key@));
    while members.len() > 0
        invariant
            0 <= done <= all.len(),
            members@ == all.skip(done),
            to_map(json_pairs(kept@)) == to_map(json_pairs(all.take(done))).remove(key@),
        decreases members@.len(),
    {
        let (k, v) = members.remove(0);
        let ghost before = kept@;
        let ghost value = v;
        proof {
            assert((k, v) == all[done]);
            assert(all.take(done + 1).drop_last() =~= all.take(done));
            assert(json_pairs(all.take(done + 1)).drop_last() =~= json_pairs(all.take(done)));
            assert(members@ =~= all.skip(done + 1));
        }
        if !text::same(k.as_str(), key) {
            kept.push((k, v));
            proof {
                assert(kept@.drop_last() =~= before);
                assert(json_pairs(kept@).drop_last() =~= json_pairs(before));
            }
        }
        proof {
            done = done + 1;
            assert(to_map(json_pairs(kept@)) =~= to_map(json_pairs(all.take(done))).remove(key@));
        }
    }
    assert(all.take(all.len() as int) =~= all);
    JsonValue::Object(kept)
}

/// The value of a member of an object, the last where its key stands twice.
pub fn take_member(object: JsonValue, key: &str) -> (r: Option<JsonValue>)
    ensures
        match r {
            Some(v) => object is Object && members_of(object).dom().contains(key@) && json_meaning(v)
                == members_of(object)[key@],
            None => !(object is Object && members_of(object).dom().contains(key@)),
        },
{
    let mut members = match object {
        JsonValue::Object(m) => m,
        _ => {
            return None;
        },
    };
    let ghost all = members@;
    while members.len() > 0
        invariant
            object is Object,
            members_of(object) == to_map(json_pairs(all)),
            members@.len() <= all.len(),
            members@ == all.take(members@.len() as int),
            to_map(json_pairs(all)).dom().contains(key@) == to_map(
                json_pairs(members@),
            ).dom().contains(key@),
            to_map(json_pairs(all)).dom().contains(key@) ==> to_map(json_pairs(all))[key@]
                == to_map(json_pairs(members@))[key@],
        decreases members@.len(),
    {
        let ghost before = members@;
        let last: usize = members.len() - 1;
        let (k, v) = members.remove(last);
        proof {
            assert((k, v) == before[before.len() - 1]);
            assert(members@ =~= before.drop_last());
            assert(members@ =~= all.take(members@.len() as int));
            assert(json_pairs(before).drop_last() =~= json_pairs(members@));
        }
        if text::same(k.as_str(), key) {
            return Some(v);
        }
    }
    None
}

/// An object with a member set.
pub fn with_member(object: JsonValue, key: &str, value: JsonValue) -> (r: JsonValue)
    requires
        object is Object,
    ensures
        r is Object,
        members_of(r) == members_of(object).insert(key@, json_meaning(value)),
{
    let ghost before = members_of(object);
    let rest = without_member(object, key);
    let ghost without = members_of(rest);
    match rest {
        JsonValue::Object(mut members) => {
            let ghost listed = members@;
            let ghost m = json_meaning(value);
            members.push((key.to_owned(), value));
            proof {
                assert(members@.drop_last() =~= listed);
                assert(json_pairs(members@).drop_last() =~= json_pairs(listed));
                assert(without.insert(key@, m) =~= before.insert(key@, m));
            }
            JsonValue::Object(members)
        },
        other => other,
    }
}

// ---------------------------------------------------------------------------
// One form for one meaning
// ---------------------------------------------------------------------------

/// A canonical value as it is written down, members in their order.
pub enum Form {
    Null,
    Bool(bool),
    Int(i64),
    Float(Seq<char>),
    Str(Seq<char>),
    Array(Seq<Form>),
    Object(Seq<(Seq<char>, Form)>),
}

pub open spec fn form_of(v: CanonicalValue) -> Form
    decreases v,
{
    match v {
        CanonicalValue::Null => Form::Null,
        CanonicalValue::Bool(b) => Form::Bool(b),
        CanonicalValue::Int(n) => Form::Int(n),
        CanonicalValue::Float(t) => Form::Float(t@),
        CanonicalValue::Str(s) => Form::Str(s@),
        CanonicalValue::Array(items) => Form::Array(form_items(items@)),
        CanonicalValue::Object(members) => Form::Object(form_pairs(members@)),
    }
}

pub open spec fn form_items(s: Seq<CanonicalValue>) -> Seq<Form>
    decreases s,
{
    if s.len() == 0 {
        seq![]
    } else {
        form_items(s.drop_last()).push(form_of(s[s.len() - 1]))
    }
}

pub open spec fn form_pairs(s: Seq<(String, CanonicalValue)>) -> Seq<(Seq<char>, Form)>
    decreases s,
{
    if s.len() == 0 {
        seq![]
    } else {
        form_pairs(s.drop_last()).push((s[s.len() - 1].0@, form_of(s[s.len() - 1].1)))
    }
}

spec fn rising_pairs<V>(s: Seq<(Seq<char>, V)>) -> bool {
    forall|i: int, j: int|
        0 <= i < j < s.len() ==> text::lex_less(#[trigger] s[i].0, #[trigger] s[j].0)
}

proof fn lemma_rising_pairs_distinct<V>(s: Seq<(Seq<char>, V)>)
    requires
        rising_pairs(s),
    ensures
        distinct(s),
{
    assert forall|i: int, j: int| 0 <= i < j < s.len() implies #[trigger] s[i].0
        != #[trigger] s[j].0 by {
        text::lemma_lex_irreflexive(s[i].0);
    }
}

/// The key of the last member is the largest of all.
proof fn lemma_last_is_largest<V>(s: Seq<(Seq<char>, V)>, k: Seq<char>)
    requires
        rising_pairs(s),
        s.len() > 0,
        to_map(s).dom().contains(k),
    ensures
        k == s.last().0 || text::lex_less(k, s.last().0),
{
    lemma_rising_pairs_distinct(s);
    lemma_to_map(s);
    let i = choose|i: int| 0 <= i < s.len() && #[trigger] s[i].0 == k;
    if i < s.len() - 1 {
        assert(text::lex_less(s[i].0, s[s.len() - 1].0));
    }
}

proof fn lemma_without_last<V>(s: Seq<(Seq<char>, V)>)
    requires
        rising_pairs(s),
        s.len() > 0,
    ensures
        rising_pairs(s.drop_last()),
        to_map(s.drop_last()) == to_map(s).remove(s.last().0),
{
    let before = s.drop_last();
    assert forall|i: int, j: int| 0 <= i < j < before.len() implies text::lex_less(
        #[trigger] before[i].0,
        #[trigger] before[j].0,
    ) by {
        assert(text::lex_less(s[i].0, s[j].0));
    }
    lemma_rising_pairs_distinct(before);
    lemma_to_map(before);
    if to_map(before).dom().contains(s.last().0) {
        let i = choose|i: int| 0 <= i < before.len() && #[trigger] before[i].0 == s.last().0;
        assert(text::lex_less(s[i].0, s[s.len() - 1].0));
        text::lemma_lex_irreflexive(s.last().0);
    }
    assert(to_map(before) =~= to_map(s).remove(s.last().0));
}

/// Members in rising order are determined by what they mean together.
proof fn lemma_rising_pairs_unique<V>(p: Seq<(Seq<char>, V)>, q: Seq<(Seq<char>, V)>)
    requires
        rising_pairs(p),
        rising_pairs(q),
        to_map(p) == to_map(q),
    ensures
        p == q,
    decreases p.len(),
{
    if p.len() == 0 {
        if q.len() > 0 {
            assert(to_map(q).dom().contains(q.last().0));
            assert(false);
        }
        assert(p =~= q);
    } else if q.len() == 0 {
        assert(to_map(p).dom().contains(p.last().0));
        assert(false);
    } else {
        let a = p.last().0;
        let b = q.last().0;
        assert(to_map(p).dom().contains(a));
        assert(to_map(q).dom().contains(b));
        lemma_last_is_largest(q, a);
        lemma_last_is_largest(p, b);
        if a != b {
            text::lemma_lex_transitive(a, b, a);
            text::lemma_lex_irreflexive(a);
            assert(false);
        }
        assert(p.last().1 == to_map(p)[a]);
        assert(q.last().1 == to_map(q)[a]);
        lemma_without_last(p);
        lemma_without_last(q);
        lemma_rising_pairs_unique(p.drop_last(), q.drop_last());
        assert(p =~= p.drop_last().push(p.last()));
        assert(q =~= q.drop_last().push(q.last()));
    }
}

/// One meaning has one canonical form: an edit binds the same whatever order its
/// keys came in.
pub proof fn law_canonical_form_is_unique(a: CanonicalValue, b: CanonicalValue)
    requires
        is_canonical(a),
        is_canonical(b),
        canon_meaning(a) == canon_meaning(b),
    ensures
        form_of(a) == form_of(b),
    decreases a,
{
    match (a, b) {
        (CanonicalValue::Array(x), CanonicalValue::Array(y)) => {
            lemma_items_unique(x@, y@);
        },
        (CanonicalValue::Object(x), CanonicalValue::Object(y)) => {
            lemma_canon_pairs(x@);
            lemma_canon_pairs(y@);
            let p = canon_pairs(x@);
            let q = canon_pairs(y@);
            assert forall|i: int, j: int| 0 <= i < j < p.len() implies text::lex_less(
                #[trigger] p[i].0,
                #[trigger] p[j].0,
            ) by {
                assert(text::lex_less(x@[i].0@, x@[j].0@));
            }
            assert forall|i: int, j: int| 0 <= i < j < q.len() implies text::lex_less(
                #[trigger] q[i].0,
                #[trigger] q[j].0,
            ) by {
                assert(text::lex_less(y@[i].0@, y@[j].0@));
            }
            lemma_rising_pairs_unique(p, q);
            lemma_members_unique(x@, y@);
        },
        _ => {},
    }
}

proof fn lemma_items_unique(x: Seq<CanonicalValue>, y: Seq<CanonicalValue>)
    requires
        all_canonical(x),
        all_canonical(y),
        canon_items(x) == canon_items(y),
    ensures
        form_items(x) == form_items(y),
    decreases x,
{
    if x.len() == 0 {
        if y.len() > 0 {
            assert(canon_items(y).len() > 0);
        }
    } else if y.len() == 0 {
        assert(canon_items(x).len() > 0);
    } else {
        let p = canon_items(x);
        let q = canon_items(y);
        assert(p.drop_last() =~= canon_items(x.drop_last()));
        assert(q.drop_last() =~= canon_items(y.drop_last()));
        assert(p.last() == q.last());
        lemma_items_unique(x.drop_last(), y.drop_last());
        law_canonical_form_is_unique(x[x.len() - 1], y[y.len() - 1]);
    }
}

proof fn lemma_members_unique(x: Seq<(String, CanonicalValue)>, y: Seq<(String, CanonicalValue)>)
    requires
        members_canonical(x),
        members_canonical(y),
        canon_pairs(x) == canon_pairs(y),
    ensures
        form_pairs(x) == form_pairs(y),
    decreases x,
{
    if x.len() == 0 {
        if y.len() > 0 {
            assert(canon_pairs(y).len() > 0);
        }
    } else if y.len() == 0 {
        assert(canon_pairs(x).len() > 0);
    } else {
        let p = canon_pairs(x);
        let q = canon_pairs(y);
        assert(p.drop_last() =~= canon_pairs(x.drop_last()));
        assert(q.drop_last() =~= canon_pairs(y.drop_last()));
        assert(p.last() == q.last());
        lemma_members_unique(x.drop_last(), y.drop_last());
        law_canonical_form_is_unique(x[x.len() - 1].1, y[y.len() - 1].1);
    }
}

/// Of two members with one key the last one counts, and a member leaves the
/// others alone.
pub proof fn law_the_last_of_two_members_counts<V>(pairs: Seq<(Seq<char>, V)>, key: Seq<char>, value: V, other: Seq<char>)
    ensures
        to_map(pairs.push((key, value))).dom().contains(key),
        to_map(pairs.push((key, value)))[key] == value,
        other != key ==> (to_map(pairs.push((key, value))).dom().contains(other) <==> to_map(
            pairs,
        ).dom().contains(other)),
        other != key && to_map(pairs).dom().contains(other) ==> to_map(pairs.push((key, value)))[other]
            == to_map(pairs)[other],
        to_map(Seq::<(Seq<char>, V)>::empty()).dom() == Set::<Seq<char>>::empty(),
{
    assert(pairs.push((key, value)).drop_last() =~= pairs);
}

/// The items of an array mean what each means, in their order, and a member
/// means what its value means, under its key.
pub proof fn law_items_and_members_keep_their_place(
    items: Seq<JsonValue>,
    members: Seq<(String, JsonValue)>,
    held: Seq<CanonicalValue>,
    bound: Seq<(String, CanonicalValue)>,
    i: int,
)
    ensures
        json_items(items).len() == items.len(),
        0 <= i < items.len() ==> json_items(items)[i] == json_meaning(items[i]),
        json_pairs(members).len() == members.len(),
        0 <= i < members.len() ==> json_pairs(members)[i] == (
            members[i].0@,
            json_meaning(members[i].1),
        ),
        canon_items(held).len() == held.len(),
        0 <= i < held.len() ==> canon_items(held)[i] == canon_meaning(held[i]),
        canon_pairs(bound).len() == bound.len(),
        0 <= i < bound.len() ==> canon_pairs(bound)[i] == (bound[i].0@, canon_meaning(bound[i].1)),
{
    lemma_items_at(items, i);
    lemma_pairs_at(members, i);
    lemma_held_at(held, i);
    lemma_bound_at(bound, i);
}

proof fn lemma_items_at(s: Seq<JsonValue>, i: int)
    ensures
        json_items(s).len() == s.len(),
        0 <= i < s.len() ==> json_items(s)[i] == json_meaning(s[i]),
    decreases s.len(),
{
    if s.len() > 0 {
        lemma_items_at(s.drop_last(), i);
    }
}

proof fn lemma_pairs_at(s: Seq<(String, JsonValue)>, i: int)
    ensures
        json_pairs(s).len() == s.len(),
        0 <= i < s.len() ==> json_pairs(s)[i] == (s[i].0@, json_meaning(s[i].1)),
    decreases s.len(),
{
    if s.len() > 0 {
        lemma_pairs_at(s.drop_last(), i);
    }
}

proof fn lemma_held_at(s: Seq<CanonicalValue>, i: int)
    ensures
        canon_items(s).len() == s.len(),
        0 <= i < s.len() ==> canon_items(s)[i] == canon_meaning(s[i]),
    decreases s.len(),
{
    if s.len() > 0 {
        lemma_held_at(s.drop_last(), i);
    }
}

proof fn lemma_bound_at(s: Seq<(String, CanonicalValue)>, i: int)
    ensures
        canon_pairs(s).len() == s.len(),
        0 <= i < s.len() ==> canon_pairs(s)[i] == (s[i].0@, canon_meaning(s[i].1)),
    decreases s.len(),
{
    if s.len() > 0 {
        lemma_bound_at(s.drop_last(), i);
    }
}

/// A value that holds no other means itself, and values of different kinds mean
/// different things. An integer too large for the canonical kind is written out.
pub proof fn law_plain_values_mean_themselves(v: JsonValue, c: CanonicalValue)
    ensures
        v is Null <==> json_meaning(v) is Null,
        v matches JsonValue::Bool(b) ==> json_meaning(v) == Meaning::Bool(b),
        v matches JsonValue::Int(n) ==> json_meaning(v) == Meaning::Int(n),
        v matches JsonValue::UInt(n) ==> json_meaning(v) == (if n <= 0x7fff_ffff_ffff_ffff {
            Meaning::Int(n as i64)
        } else {
            Meaning::Float(text::decimal(n as nat))
        }),
        v matches JsonValue::Str(s) ==> json_meaning(v) == Meaning::Str(s@),
        v is Array <==> json_meaning(v) is Array,
        v is Object <==> json_meaning(v) is Object,
        c is Null <==> canon_meaning(c) is Null,
        c matches CanonicalValue::Bool(b) ==> canon_meaning(c) == Meaning::Bool(b),
        c matches CanonicalValue::Int(n) ==> canon_meaning(c) == Meaning::Int(n),
        c matches CanonicalValue::Float(t) ==> canon_meaning(c) == Meaning::Float(t@),
        c matches CanonicalValue::Str(s) ==> canon_meaning(c) == Meaning::Str(s@),
        c is Array <==> canon_meaning(c) is Array,
        c is Object <==> canon_meaning(c) is Object,
{
}

proof fn lemma_shown_at(
    items: Seq<CanonicalValue>,
    members: Seq<(String, CanonicalValue)>,
    i: int,
)
    ensures
        shown_items(items).len() == items.len(),
        0 <= i < items.len() ==> shown_items(items)[i] == shown_meaning(items[i]),
        shown_pairs(members).len() == members.len(),
        0 <= i < members.len() ==> shown_pairs(members)[i] == (
            members[i].0@,
            shown_meaning(members[i].1),
        ),
    decreases items.len() + members.len(),
{
    if items.len() > 0 {
        lemma_shown_at(items.drop_last(), members, i);
    }
    if members.len() > 0 {
        lemma_shown_at(items, members.drop_last(), i);
    }
}

/// A value is shown as it is held, down to its items and members; only a number
/// that cannot be written is shown as nothing.
pub proof fn law_values_are_shown_as_held(
    c: CanonicalValue,
    items: Seq<CanonicalValue>,
    members: Seq<(String, CanonicalValue)>,
    i: int,
)
    ensures
        c matches CanonicalValue::Bool(b) ==> shown_meaning(c) == Meaning::Bool(b),
        c matches CanonicalValue::Int(n) ==> shown_meaning(c) == Meaning::Int(n),
        c matches CanonicalValue::Str(s) ==> shown_meaning(c) == Meaning::Str(s@),
        c matches CanonicalValue::Float(t) ==> shown_meaning(c) == (match number_shown(t@) {
            Some(written) => Meaning::Float(written),
            None => Meaning::Null,
        }),
        c is Array <==> shown_meaning(c) is Array,
        c is Object <==> shown_meaning(c) is Object,
        shown_items(items).len() == items.len(),
        0 <= i < items.len() ==> shown_items(items)[i] == shown_meaning(items[i]),
        shown_pairs(members).len() == members.len(),
        0 <= i < members.len() ==> shown_pairs(members)[i] == (
            members[i].0@,
            shown_meaning(members[i].1),
        ),
{
    lemma_shown_at(items, members, i);
}

/// A member is found by its key, the first of those that have it.
pub proof fn law_a_member_is_found_by_its_key(
    members: Seq<(String, CanonicalValue)>,
    key: Seq<char>,
    i: int,
)
    ensures
        0 <= i < members.len() && members[i].0@ == key && (forall|k: int|
            0 <= k < i ==> (#[trigger] members[k]).0@ != key) ==> member(members, key) == Some(
            members[i].1,
        ),
        (forall|k: int| 0 <= k < members.len() ==> (#[trigger] members[k]).0@ != key) ==> member(
            members,
            key,
        ) is None,
    decreases members.len(),
{
    if members.len() > 0 {
        let rest = members.skip(1);
        law_a_member_is_found_by_its_key(rest, key, i - 1);
        assert forall|k: int| 0 <= k < rest.len() implies #[trigger] rest[k] == members[k + 1] by {}
        if 0 < i < members.len() && members[i].0@ == key && (forall|k: int|
            0 <= k < i ==> (#[trigger] members[k]).0@ != key) {
            assert(members[0].0@ != key);
            assert(rest[i - 1] == members[i]);
            assert forall|k: int| 0 <= k < i - 1 implies (#[trigger] rest[k]).0@ != key by {
                assert(members[k + 1].0@ != key);
            }
        }
        if forall|k: int| 0 <= k < members.len() ==> (#[trigger] members[k]).0@ != key {
            assert(members[0].0@ != key);
            assert forall|k: int| 0 <= k < rest.len() implies (#[trigger] rest[k]).0@ != key by {
                assert(members[k + 1].0@ != key);
            }
        }
    }
}

} // verus!

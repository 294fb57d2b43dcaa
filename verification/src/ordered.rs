//! Lists of entries in the order of their keys.

use vstd::prelude::*;

use crate::text;

verus! {

/// Keys in strictly rising order.
pub open spec fn rising<V>(s: Seq<(String, V)>) -> bool {
    forall|i: int, j: int|
        0 <= i < j < s.len() ==> text::lex_less(#[trigger] s[i].0@, #[trigger] s[j].0@)
}

/// Where a key stands, or would stand, in an ordered list.
pub fn place_of<V>(entries: &Vec<(String, V)>, key: &str) -> (r: (usize, bool))
    requires
        rising(entries@),
    ensures
        r.0 <= entries@.len(),
        forall|j: int| 0 <= j < r.0 ==> text::lex_less(#[trigger] entries@[j].0@, key@),
        r.1 ==> r.0 < entries@.len() && entries@[r.0 as int].0@ == key@,
        !r.1 ==> forall|j: int|
            r.0 <= j < entries@.len() ==> text::lex_less(key@, #[trigger] entries@[j].0@),
{
    let mut i: usize = 0;
    while i < entries.len()
        invariant
            i <= entries@.len(),
            rising(entries@),
            forall|j: int| 0 <= j < i ==> text::lex_less(#[trigger] entries@[j].0@, key@),
        decreases entries@.len() - i,
    {
        if text::same(entries[i].0.as_str(), key) {
            return (i, true);
        }
        if text::comes_before(key, entries[i].0.as_str()) {
            proof {
                assert forall|j: int| i <= j < entries@.len() implies text::lex_less(
                    key@,
                    #[trigger] entries@[j].0@,
                ) by {
                    if j > i {
                        text::lemma_lex_transitive(key@, entries@[i as int].0@, entries@[j].0@);
                    }
                }
            }
            return (i, false);
        }
        proof {
            text::lemma_lex_total(entries@[i as int].0@, key@);
        }
        i = i + 1;
    }
    (i, false)
}

/// The value that an ordered list gives a key.
pub open spec fn value_of<V>(s: Seq<(String, V)>, key: Seq<char>) -> Option<V> {
    if exists|i: int| 0 <= i < s.len() && (#[trigger] s[i]).0@ == key {
        Some(s[choose|i: int| 0 <= i < s.len() && (#[trigger] s[i]).0@ == key].1)
    } else {
        None
    }
}

pub proof fn lemma_value_at<V>(s: Seq<(String, V)>, i: int)
    requires
        rising(s),
        0 <= i < s.len(),
    ensures
        value_of(s, s[i].0@) == Some(s[i].1),
{
    let key = s[i].0@;
    let k = choose|k: int| 0 <= k < s.len() && (#[trigger] s[k]).0@ == key;
    text::lemma_lex_irreflexive(key);
    if k < i {
        assert(text::lex_less(s[k].0@, s[i].0@));
    } else if i < k {
        assert(text::lex_less(s[i].0@, s[k].0@));
    }
}

/// Put an entry where its key belongs; one that was there is replaced.
pub fn put<V>(entries: &mut Vec<(String, V)>, key: String, value: V)
    requires
        rising(old(entries)@),
    ensures
        rising(final(entries)@),
        value_of(final(entries)@, key@) == Some(value),
        forall|k: Seq<char>|
            k != key@ ==> #[trigger] value_of(final(entries)@, k) == value_of(old(entries)@, k),
{
    let ghost before = entries@;
    let ghost k = key@;
    let (i, found) = place_of(entries, key.as_str());
    if found {
        let _replaced = entries.remove(i);
    }
    let ghost kept = entries@;
    entries.insert(i, (key, value));
    proof {
        let after = entries@;
        assert forall|a: int, b: int| 0 <= a < b < after.len() implies text::lex_less(
            #[trigger] after[a].0@,
            #[trigger] after[b].0@,
        ) by {
            let x = if a < i || found {
                a
            } else {
                a - 1
            };
            let y = if b < i || found {
                b
            } else {
                b - 1
            };
            if a != i && b != i {
                assert(after[a].0@ == before[x].0@ && after[b].0@ == before[y].0@);
                assert(text::lex_less(before[x].0@, before[y].0@));
            } else if a == i {
                assert(after[b].0@ == before[y].0@);
                if found {
                    assert(text::lex_less(before[a].0@, before[y].0@));
                } else {
                    assert(text::lex_less(k, before[y].0@));
                }
            } else {
                assert(after[a].0@ == before[x].0@);
                assert(text::lex_less(before[x].0@, k));
            }
        }
        lemma_value_at(after, i as int);
        assert forall|other: Seq<char>| other != k implies #[trigger] value_of(after, other)
            == value_of(before, other) by {
            if exists|a: int| 0 <= a < after.len() && (#[trigger] after[a]).0@ == other {
                let a = choose|a: int| 0 <= a < after.len() && (#[trigger] after[a]).0@ == other;
                let x = if a < i || found {
                    a
                } else {
                    a - 1
                };
                assert(after[a] == before[x]);
                lemma_value_at(after, a);
                lemma_value_at(before, x);
            }
            if exists|x: int| 0 <= x < before.len() && (#[trigger] before[x]).0@ == other {
                let x = choose|x: int| 0 <= x < before.len() && (#[trigger] before[x]).0@ == other;
                let a = if x < i || found {
                    x
                } else {
                    x + 1
                };
                assert(after[a] == before[x]);
                lemma_value_at(after, a);
                lemma_value_at(before, x);
            }
        }
    }
}

/// In an ordered table a key stands once, and its value is the one beside it; a
/// key that does not stand there has none.
pub proof fn law_a_key_has_the_value_beside_it<V>(s: Seq<(String, V)>, i: int, key: Seq<char>)
    requires
        rising(s),
    ensures
        0 <= i < s.len() ==> value_of(s, s[i].0@) == Some(s[i].1),
        (forall|k: int| 0 <= k < s.len() ==> (#[trigger] s[k]).0@ != key) ==> value_of(s, key) is None,
{
    if 0 <= i < s.len() {
        let wanted = s[i].0@;
        let j = choose|j: int| 0 <= j < s.len() && (#[trigger] s[j]).0@ == wanted;
        text::lemma_lex_irreflexive(wanted);
        assert(i == j);
    }
}

} // verus!

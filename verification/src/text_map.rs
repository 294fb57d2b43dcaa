//! A map from texts to values, kept as a list of entries in the order of their
//! keys.

use vstd::prelude::*;

use crate::ordered;
use crate::text;

verus! {

/// A map keyed by text. The entries stand in the order of their keys.
pub struct TextMap<V> {
    entries: Vec<(String, V)>,
}

/// The keys of a list of entries.
pub open spec fn keys_of<V>(entries: Seq<(String, V)>) -> Seq<Seq<char>> {
    entries.map_values(|e: (String, V)| e.0@)
}

/// Keys in strictly rising order.
pub open spec fn in_order(keys: Seq<Seq<char>>) -> bool {
    forall|i: int, j: int|
        0 <= i < j < keys.len() ==> text::lex_less(#[trigger] keys[i], #[trigger] keys[j])
}

proof fn lemma_in_order<V>(entries: Seq<(String, V)>)
    requires
        ordered::rising(entries),
    ensures
        in_order(keys_of(entries)),
        keys_of(entries).no_duplicates(),
{
    let keys = keys_of(entries);
    assert forall|i: int, j: int| 0 <= i < j < keys.len() implies text::lex_less(
        #[trigger] keys[i],
        #[trigger] keys[j],
    ) by {
        assert(text::lex_less(entries[i].0@, entries[j].0@));
    }
    lemma_in_order_distinct(keys);
}

proof fn lemma_in_order_distinct(keys: Seq<Seq<char>>)
    requires
        in_order(keys),
    ensures
        keys.no_duplicates(),
{
    assert forall|i: int, j: int| 0 <= i < j < keys.len() implies keys[i] != keys[j] by {
        assert(text::lex_less(keys[i], keys[j]));
        text::lemma_lex_irreflexive(keys[i]);
    }
}

/// The order fixes the list of keys: what is in the map is all that it depends on.
pub proof fn law_order_fixes_the_keys(a: Seq<Seq<char>>, b: Seq<Seq<char>>)
    requires
        in_order(a),
        in_order(b),
        a.to_set() == b.to_set(),
    ensures
        a == b,
    decreases a.len(),
{
    lemma_in_order_distinct(a);
    lemma_in_order_distinct(b);
    a.unique_seq_to_set();
    b.unique_seq_to_set();
    if a.len() > 0 {
        let n = a.len() - 1;
        let (x, y) = (a[n], b[n]);
        assert(a.to_set().contains(x) && b.to_set().contains(y));
        let i = choose|i: int| 0 <= i < b.len() && b[i] == x;
        let j = choose|j: int| 0 <= j < a.len() && a[j] == y;
        if x != y {
            assert(text::lex_less(b[i], b[n]));
            assert(text::lex_less(a[j], a[n]));
            text::lemma_lex_transitive(x, y, x);
            text::lemma_lex_irreflexive(x);
        }
        let (p, q) = (a.drop_last(), b.drop_last());
        assert forall|k: int, l: int| 0 <= k < l < p.len() implies text::lex_less(
            #[trigger] p[k],
            #[trigger] p[l],
        ) by {
            assert(text::lex_less(a[k], a[l]));
        }
        assert forall|k: int, l: int| 0 <= k < l < q.len() implies text::lex_less(
            #[trigger] q[k],
            #[trigger] q[l],
        ) by {
            assert(text::lex_less(b[k], b[l]));
        }
        assert forall|k: Seq<char>| p.to_set().contains(k) == q.to_set().contains(k) by {
            if p.to_set().contains(k) {
                let l = choose|l: int| 0 <= l < p.len() && p[l] == k;
                assert(a[l] == k && a[l] != a[n]);
                assert(a.to_set().contains(k));
                let m = choose|m: int| 0 <= m < b.len() && b[m] == k;
                assert(q[m] == k);
            }
            if q.to_set().contains(k) {
                let l = choose|l: int| 0 <= l < q.len() && q[l] == k;
                assert(b[l] == k && b[l] != b[n]);
                assert(b.to_set().contains(k));
                let m = choose|m: int| 0 <= m < a.len() && a[m] == k;
                assert(p[m] == k);
            }
        }
        assert(p.to_set() =~= q.to_set());
        law_order_fixes_the_keys(p, q);
        assert(a =~= p.push(x));
        assert(b =~= q.push(y));
    } else {
        assert(a =~= b);
    }
}

/// The map that a list of entries with distinct keys stands for.
pub open spec fn map_of<V>(entries: Seq<(String, V)>) -> Map<Seq<char>, V> {
    Map::new(
        |k: Seq<char>| keys_of(entries).contains(k),
        |k: Seq<char>| entries[keys_of(entries).index_of(k)].1,
    )
}

impl<V> View for TextMap<V> {
    type V = Map<Seq<char>, V>;

    closed spec fn view(&self) -> Map<Seq<char>, V> {
        map_of(self.entries@)
    }
}

proof fn lemma_entry<V>(entries: Seq<(String, V)>, i: int)
    requires
        keys_of(entries).no_duplicates(),
        0 <= i < entries.len(),
    ensures
        keys_of(entries)[i] == entries[i].0@,
        map_of(entries).dom().contains(entries[i].0@),
        map_of(entries)[entries[i].0@] == entries[i].1,
{
    let k = entries[i].0@;
    assert(keys_of(entries)[i] == k);
    assert(keys_of(entries).contains(k));
    let j = keys_of(entries).index_of(k);
    assert(keys_of(entries)[j] == k);
}

impl<V> TextMap<V> {
    /// The keys, in order.
    pub closed spec fn keys(&self) -> Seq<Seq<char>> {
        keys_of(self.entries@)
    }

    #[verifier::type_invariant]
    spec fn wf(self) -> bool {
        ordered::rising(self.entries@)
    }

    pub fn new() -> (m: Self)
        ensures
            m@ == Map::<Seq<char>, V>::empty(),
            m.keys() == Seq::<Seq<char>>::empty(),
    {
        let m = TextMap { entries: Vec::new() };
        assert(m.keys() =~= Seq::<Seq<char>>::empty());
        assert(m@ =~= Map::<Seq<char>, V>::empty());
        m
    }

    /// How many entries there are.
    pub fn len(&self) -> (n: usize)
        ensures
            n == self@.dom().len(),
            n == self.keys().len(),
            in_order(self.keys()),
            self.keys().no_duplicates(),
            self@.dom() == self.keys().to_set(),
            self@.dom().finite(),
    {
        proof {
            use_type_invariant(self);
            lemma_in_order(self.entries@);
            self.keys().unique_seq_to_set();
            assert(self@.dom() =~= self.keys().to_set());
            vstd::seq_lib::seq_to_set_is_finite(self.keys());
        }
        self.entries.len()
    }

    pub fn is_empty(&self) -> (b: bool)
        ensures
            b == (self@ == Map::<Seq<char>, V>::empty()),
    {
        proof {
            use_type_invariant(self);
        }
        if self.entries.len() == 0 {
            assert(self@ =~= Map::<Seq<char>, V>::empty());
            true
        } else {
            proof {
                lemma_in_order(self.entries@);
                lemma_entry(self.entries@, 0);
            }
            false
        }
    }

    fn position(&self, key: &str) -> (r: Option<usize>)
        ensures
            match r {
                Some(i) => i < self.entries@.len() && self.entries@[i as int].0@ == key@
                    && self@.dom().contains(key@) && self@[key@] == self.entries@[i as int].1,
                None => !self.keys().contains(key@) && !self@.dom().contains(key@),
            },
    {
        proof {
            use_type_invariant(self);
            lemma_in_order(self.entries@);
        }
        let mut i: usize = 0;
        while i < self.entries.len()
            invariant
                i <= self.entries@.len(),
                self.keys().no_duplicates(),
                forall|k: int| 0 <= k < i ==> self.keys()[k] != key@,
            decreases self.entries@.len() - i,
        {
            if text::same(self.entries[i].0.as_str(), key) {
                proof {
                    lemma_entry(self.entries@, i as int);
                }
                return Some(i);
            }
            i = i + 1;
        }
        None
    }

    pub fn contains(&self, key: &str) -> (b: bool)
        ensures
            b == self@.dom().contains(key@),
    {
        self.position(key).is_some()
    }

    pub fn get(&self, key: &str) -> (r: Option<&V>)
        ensures
            match r {
                Some(v) => self@.dom().contains(key@) && *v == self@[key@],
                None => !self@.dom().contains(key@),
            },
    {
        match self.position(key) {
            Some(i) => Some(&self.entries[i].1),
            None => None,
        }
    }

    /// The key at a place in the list.
    pub fn key_at(&self, i: usize) -> (k: &String)
        requires
            i < self.keys().len(),
        ensures
            k@ == self.keys()[i as int],
            self@.dom().contains(k@),
    {
        proof {
            use_type_invariant(self);
            lemma_in_order(self.entries@);
            lemma_entry(self.entries@, i as int);
        }
        &self.entries[i].0
    }

    /// The value of the key at a place in the list.
    pub fn value_at(&self, i: usize) -> (v: &V)
        requires
            i < self.keys().len(),
        ensures
            *v == self@[self.keys()[i as int]],
    {
        proof {
            use_type_invariant(self);
            lemma_in_order(self.entries@);
            lemma_entry(self.entries@, i as int);
        }
        &self.entries[i].1
    }

    /// Put `value` under `key`, in place of what was there.
    pub fn insert(&mut self, key: String, value: V)
        ensures
            final(self)@ == old(self)@.insert(key@, value),
            in_order(final(self).keys()),
            final(self).keys().to_set() == final(self)@.dom(),
            old(self)@.dom().contains(key@) ==> final(self).keys() == old(self).keys(),
            !old(self)@.dom().contains(key@) ==> exists|i: int|
                0 <= i <= old(self).keys().len() && final(self).keys()
                    == #[trigger] old(self).keys().insert(i, key@),
    {
        proof {
            use_type_invariant(&*self);
            lemma_in_order(self.entries@);
        }
        let ghost before = self.entries@;
        let ghost k = key@;
        let mut entries: Vec<(String, V)> = Vec::new();
        std::mem::swap(&mut entries, &mut self.entries);
        let (i, found) = ordered::place_of(&entries, key.as_str());
        if found {
            proof {
                lemma_entry(before, i as int);
            }
            entries.set(i, (key, value));
            proof {
                assert(keys_of(entries@) =~= keys_of(before));
                assert forall|a: int, b: int| 0 <= a < b < entries@.len() implies text::lex_less(
                    #[trigger] entries@[a].0@,
                    #[trigger] entries@[b].0@,
                ) by {
                    assert(text::lex_less(before[a].0@, before[b].0@));
                }
                lemma_entry(entries@, i as int);
                assert forall|o: Seq<char>| keys_of(before).contains(o) implies map_of(entries@)[o]
                    == map_of(before).insert(k, value)[o] by {
                    let j = choose|j: int| 0 <= j < before.len() && keys_of(before)[j] == o;
                    lemma_entry(before, j);
                    lemma_entry(entries@, j);
                }
                assert(map_of(entries@) =~= map_of(before).insert(k, value));
            }
        } else {
            entries.insert(i, (key, value));
            proof {
                let after = entries@;
                assert(keys_of(after) =~= keys_of(before).insert(i as int, k));
                assert forall|a: int, b: int| 0 <= a < b < after.len() implies text::lex_less(
                    #[trigger] after[a].0@,
                    #[trigger] after[b].0@,
                ) by {
                    if b < i {
                        assert(text::lex_less(before[a].0@, before[b].0@));
                    } else if b == i {
                        assert(text::lex_less(before[a].0@, k));
                    } else if a < i {
                        assert(text::lex_less(before[a].0@, before[b - 1].0@));
                    } else if a == i {
                        assert(text::lex_less(k, before[b - 1].0@));
                    } else {
                        assert(text::lex_less(before[a - 1].0@, before[b - 1].0@));
                    }
                }
                lemma_in_order(after);
                assert(!keys_of(before).contains(k)) by {
                    text::lemma_lex_irreflexive(k);
                    if keys_of(before).contains(k) {
                        let j = choose|j: int| 0 <= j < before.len() && keys_of(before)[j] == k;
                        assert(before[j].0@ == k);
                    }
                }
                assert forall|o: Seq<char>| keys_of(after).contains(o) <==> (o == k || keys_of(
                    before,
                ).contains(o)) by {
                    if keys_of(before).contains(o) {
                        let j = choose|j: int| 0 <= j < before.len() && keys_of(before)[j] == o;
                        assert(keys_of(after)[if j < i { j } else { j + 1 }] == o);
                    }
                    if o == k {
                        assert(keys_of(after)[i as int] == o);
                    }
                    if keys_of(after).contains(o) && o != k {
                        let j = choose|j: int| 0 <= j < after.len() && keys_of(after)[j] == o;
                        assert(keys_of(before)[if j < i { j } else { j - 1 }] == o);
                    }
                }
                assert forall|o: Seq<char>| keys_of(after).contains(o) implies map_of(after)[o]
                    == map_of(before).insert(k, value)[o] by {
                    let j = choose|j: int| 0 <= j < after.len() && keys_of(after)[j] == o;
                    lemma_entry(after, j);
                    if j != i {
                        let x = if j < i { j } else { j - 1 };
                        assert(after[j] == before[x]);
                        lemma_entry(before, x);
                    }
                }
                assert(map_of(after) =~= map_of(before).insert(k, value));
            }
        }
        self.entries = entries;
        proof {
            lemma_in_order(self.entries@);
            assert(self.keys().to_set() =~= self@.dom());
            assert(!found ==> self.keys() == old(self).keys().insert(i as int, k));
        }
    }

    /// Take out what is under `key`.
    pub fn remove(&mut self, key: &str) -> (r: Option<V>)
        ensures
            final(self)@ == old(self)@.remove(key@),
            in_order(final(self).keys()),
            final(self).keys().to_set() == final(self)@.dom(),
            final(self).keys() == (if old(self)@.dom().contains(key@) {
                old(self).keys().remove(old(self).keys().index_of(key@))
            } else {
                old(self).keys()
            }),
            match r {
                Some(v) => old(self)@.dom().contains(key@) && v == old(self)@[key@],
                None => !old(self)@.dom().contains(key@),
            },
    {
        proof {
            use_type_invariant(&*self);
            lemma_in_order(self.entries@);
        }
        let found = self.position(key);
        let ghost before = self.entries@;
        let r = match found {
            Some(i) => {
                let mut entries: Vec<(String, V)> = Vec::new();
                std::mem::swap(&mut entries, &mut self.entries);
                let (_, value) = entries.remove(i);
                proof {
                    let after = entries@;
                    assert(keys_of(before)[i as int] == key@);
                    let at = keys_of(before).index_of(key@);
                    assert(keys_of(before)[at] == key@);
                    assert(at == i);
                    assert(keys_of(after) =~= keys_of(before).remove(i as int));
                    assert forall|a: int, b: int| 0 <= a < b < after.len() implies text::lex_less(
                        #[trigger] after[a].0@,
                        #[trigger] after[b].0@,
                    ) by {
                        let x = if a < i { a } else { a + 1 };
                        let y = if b < i { b } else { b + 1 };
                        assert(text::lex_less(before[x].0@, before[y].0@));
                    }
                    lemma_in_order(after);
                    assert forall|k: Seq<char>| keys_of(after).contains(k) <==> (k != key@
                        && keys_of(before).contains(k)) by {
                        if k != key@ && keys_of(before).contains(k) {
                            let j = choose|j: int| 0 <= j < before.len() && keys_of(before)[j] == k;
                            assert(keys_of(after)[if j < i { j } else { j - 1 }] == k);
                        }
                        if keys_of(after).contains(k) {
                            let j = choose|j: int| 0 <= j < after.len() && keys_of(after)[j] == k;
                            assert(keys_of(before)[if j < i { j } else { j + 1 }] == k);
                        }
                    }
                    assert forall|k: Seq<char>| keys_of(after).contains(k) implies map_of(after)[k]
                        == map_of(before)[k] by {
                        let j = choose|j: int| 0 <= j < after.len() && keys_of(after)[j] == k;
                        lemma_entry(after, j);
                        lemma_entry(before, if j < i { j } else { j + 1 });
                    }
                    assert(map_of(after) =~= map_of(before).remove(key@));
                }
                self.entries = entries;
                Some(value)
            },
            None => {
                assert(map_of(before) =~= map_of(before).remove(key@));
                None
            },
        };
        proof {
            lemma_in_order(self.entries@);
            assert(self.keys().to_set() =~= self@.dom());
        }
        r
    }

    pub fn clear(&mut self)
        ensures
            final(self)@ == Map::<Seq<char>, V>::empty(),
            final(self).keys() == Seq::<Seq<char>>::empty(),
    {
        self.entries = Vec::new();
        assert(self@ =~= Map::<Seq<char>, V>::empty());
        assert(self.keys() =~= Seq::<Seq<char>>::empty());
    }
}

} // verus!

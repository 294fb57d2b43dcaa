//! Spoken light target to allowlisted entity id.
//!
//! A spoken phrase only ever resolves downward, into entities the owner put on
//! the allowlist. No entity id is built from an utterance.

use vstd::prelude::*;

use crate::text;
use crate::text_map::TextMap;

verus! {

/// The words of a phrase without a leading article.
pub open spec fn without_article(words: Seq<Seq<char>>) -> Seq<Seq<char>> {
    if words.len() > 0 && (words[0] == "the"@ || words[0] == "my"@) {
        words.skip(1)
    } else {
        words
    }
}

/// What a phrase is compared by, given its lower-case form.
pub open spec fn spoken_key(lowered: Seq<char>) -> Seq<char> {
    text::joined(without_article(text::words(lowered)), " "@)
}

/// What a phrase is compared by: lower case, single spaces, no leading article.
pub open spec fn normalized(phrase: Seq<char>) -> Seq<char> {
    spoken_key(text::lowercase_of(phrase))
}

/// The comparison form of a phrase that is in lower case already.
pub fn normalize_lowered(lowered: &str) -> (key: String)
    ensures
        key@ == spoken_key(lowered@),
{
    let mut words = text::split_words(lowered);
    let ghost all = text::views(words@);
    if words.len() > 0 {
        assert(all[0] == words@[0]@);
        if text::same(words[0].as_str(), "the") || text::same(words[0].as_str(), "my") {
            let _article = words.remove(0);
            assert(text::views(words@) =~= all.skip(1));
        }
    }
    text::join(&words, " ")
}

/// Lowercase, collapse white space, and drop a leading article. No stemming, no
/// fuzzy matching, no plural folding: a near miss is a miss.
pub fn normalize(phrase: &str) -> (key: String)
    ensures
        key@ == normalized(phrase@),
{
    normalize_lowered(text::lowercase(phrase).as_str())
}

/// A text with spaces for underscores.
pub open spec fn spaced(s: Seq<char>) -> Seq<char> {
    s.map_values(
        |c: char|
            if c == '_' {
                ' '
            } else {
                c
            },
    )
}

fn space_out(s: &str) -> (r: String)
    ensures
        r@ == spaced(s@),
{
    let v = text::chars_of(s);
    let mut r = String::new();
    let mut i: usize = 0;
    while i < v.len()
        invariant
            v@ == s@,
            i <= v@.len(),
            r@ == spaced(s@).take(i as int),
        decreases v@.len() - i,
    {
        if v[i] == '_' {
            r.push(' ');
        } else {
            r.push(v[i]);
        }
        i = i + 1;
    }
    assert(spaced(s@).take(v@.len() as int) =~= spaced(s@));
    r
}

/// The phrase that names an entity, where it is a light and has a name left.
pub open spec fn spoken_form_of(entity_id: Seq<char>) -> Option<Seq<char>> {
    match text::stripped(entity_id, "light."@) {
        None => None,
        Some(object_id) => {
            let spoken = normalized(spaced(object_id));
            if spoken.len() == 0 {
                None
            } else {
                Some(spoken)
            }
        },
    }
}

/// `light.desk_lamp` is spoken "desk lamp". Anything that is not a `light.*`
/// entity has no spoken form.
pub fn spoken_form(entity_id: &str) -> (r: Option<String>)
    ensures
        text::opt_view(r) == spoken_form_of(entity_id@),
{
    match text::strip_prefix(entity_id, "light.") {
        None => None,
        Some(object_id) => {
            let spoken = normalize(space_out(object_id).as_str());
            if spoken.as_str().is_empty() {
                None
            } else {
                Some(spoken)
            }
        },
    }
}

/// Whether `w` is the spoken form of the `i`-th light, and of no other entity
/// on the list.
pub open spec fn sole_claim(lights: Seq<Seq<char>>, i: int, w: Seq<char>) -> bool {
    &&& 0 <= i < lights.len()
    &&& spoken_form_of(lights[i]) == Some(w)
    &&& forall|j: int|
        0 <= j < lights.len() && spoken_form_of(#[trigger] lights[j]) == Some(w) ==> lights[j]
            == lights[i]
}

/// What an allowlist makes nameable: each spoken form that belongs to one
/// entity alone. A form that two different entities claim is not in it.
pub open spec fn nameable(lights: Seq<Seq<char>>) -> Map<Seq<char>, Seq<char>> {
    Map::new(
        |w: Seq<char>| exists|i: int| sole_claim(lights, i, w),
        |w: Seq<char>| lights[choose|i: int| sole_claim(lights, i, w)],
    )
}

/// Resolves spoken phrases against the configured light allowlist.
pub struct ConfiguredLightTargets {
    by_spoken: TextMap<String>,
}

impl View for ConfiguredLightTargets {
    type V = Map<Seq<char>, Seq<char>>;

    closed spec fn view(&self) -> Map<Seq<char>, Seq<char>> {
        self.by_spoken@.map_values(|e: String| e@)
    }
}

fn claims_alone(lights: &[String], i: usize, spoken: &str) -> (b: bool)
    requires
        i < lights@.len(),
        spoken_form_of(lights@[i as int]@) == Some(spoken@),
    ensures
        b == sole_claim(text::views(lights@), i as int, spoken@),
{
    let ghost all = text::views(lights@);
    let mut j: usize = 0;
    while j < lights.len()
        invariant
            j <= lights@.len(),
            i < lights@.len(),
            all == text::views(lights@),
            forall|k: int|
                0 <= k < j && spoken_form_of(#[trigger] all[k]) == Some(spoken@) ==> all[k]
                    == all[i as int],
        decreases lights@.len() - j,
    {
        assert(all[j as int] == lights@[j as int]@);
        assert(all[i as int] == lights@[i as int]@);
        if let Some(other) = spoken_form(lights[j].as_str()) {
            if text::same(other.as_str(), spoken) && !text::same(
                lights[j].as_str(),
                lights[i].as_str(),
            ) {
                return false;
            }
        }
        j = j + 1;
    }
    true
}

impl ConfiguredLightTargets {
    /// Build from the configured allowlist. A spoken form that two different
    /// entities claim is dropped entirely rather than decided by order.
    pub fn from_allowlist(lights: &[String]) -> (targets: Self)
        ensures
            targets@ == nameable(text::views(lights@)),
    {
        let ghost all = text::views(lights@);
        let mut by_spoken: TextMap<String> = TextMap::new();
        let mut i: usize = 0;
        while i < lights.len()
            invariant
                i <= lights@.len(),
                all == text::views(lights@),
                forall|w: Seq<char>| #[trigger]
                    by_spoken@.dom().contains(w) <==> exists|k: int|
                        0 <= k < i && sole_claim(all, k, w),
                forall|w: Seq<char>, k: int|
                    by_spoken@.dom().contains(w) && #[trigger] sole_claim(all, k, w)
                        ==> by_spoken@[w]@ == all[k],
            decreases lights@.len() - i,
        {
            let ghost before = by_spoken@;
            let ghost here = i as int;
            assert(all[here] == lights@[here]@);
            match spoken_form(lights[i].as_str()) {
                Some(spoken) => {
                    let ghost w0 = spoken@;
                    if claims_alone(lights, i, spoken.as_str()) {
                        by_spoken.insert(spoken, lights[i].clone());
                        assert(sole_claim(all, here, w0));
                        assert forall|w: Seq<char>| #[trigger]
                            by_spoken@.dom().contains(w) <==> exists|k: int|
                                0 <= k < i + 1 && sole_claim(all, k, w) by {
                            if w == w0 {
                                assert(0 <= here < i + 1 && sole_claim(all, here, w));
                            } else {
                                assert(by_spoken@.dom().contains(w) <==> before.dom().contains(w));
                                if exists|k: int| 0 <= k < i + 1 && sole_claim(all, k, w) {
                                    let k = choose|k: int| 0 <= k < i + 1 && sole_claim(all, k, w);
                                    assert(0 <= k < i && sole_claim(all, k, w));
                                }
                            }
                        }
                    } else {
                        assert forall|w: Seq<char>| #[trigger]
                            by_spoken@.dom().contains(w) <==> exists|k: int|
                                0 <= k < i + 1 && sole_claim(all, k, w) by {
                            if exists|k: int| 0 <= k < i + 1 && sole_claim(all, k, w) {
                                let k = choose|k: int| 0 <= k < i + 1 && sole_claim(all, k, w);
                                assert(0 <= k < i && sole_claim(all, k, w));
                            }
                        }
                    }
                },
                None => {
                    assert forall|w: Seq<char>| #[trigger]
                        by_spoken@.dom().contains(w) <==> exists|k: int|
                            0 <= k < i + 1 && sole_claim(all, k, w) by {
                        if exists|k: int| 0 <= k < i + 1 && sole_claim(all, k, w) {
                            let k = choose|k: int| 0 <= k < i + 1 && sole_claim(all, k, w);
                            assert(0 <= k < i && sole_claim(all, k, w));
                        }
                    }
                },
            }
            i = i + 1;
        }
        let targets = ConfiguredLightTargets { by_spoken };
        proof {
            let m = nameable(all);
            assert forall|w: Seq<char>| targets@.dom().contains(w) <==> m.dom().contains(w) by {
                if m.dom().contains(w) {
                    let k = choose|k: int| sole_claim(all, k, w);
                    assert(0 <= k < i && sole_claim(all, k, w));
                }
            }
            assert forall|w: Seq<char>| m.dom().contains(w) implies targets@[w] == m[w] by {
                let k = choose|k: int| sole_claim(all, k, w);
                assert(targets@.dom().contains(w));
                assert(by_spoken@[w]@ == all[k]);
            }
            assert(targets@ =~= m);
        }
        targets
    }

    pub fn is_empty(&self) -> (b: bool)
        ensures
            b == (self@ == Map::<Seq<char>, Seq<char>>::empty()),
    {
        let b = self.by_spoken.is_empty();
        proof {
            if b {
                assert(self@ =~= Map::<Seq<char>, Seq<char>>::empty());
            } else if self@ == Map::<Seq<char>, Seq<char>>::empty() {
                assert(self.by_spoken@ =~= Map::<Seq<char>, String>::empty()) by {
                    assert forall|k: Seq<char>| !self.by_spoken@.dom().contains(k) by {
                        assert(!self@.dom().contains(k));
                    }
                }
            }
        }
        b
    }

    /// The allowlisted entity that a phrase names.
    pub fn resolve_light(&self, spoken_target: &str) -> (r: Option<String>)
        ensures
            text::opt_view(r) == light_meant(self@, normalized(spoken_target@)),
            text::opt_view(r) == (if self@.dom().contains(normalized(spoken_target@)) {
                Some(self@[normalized(spoken_target@)])
            } else {
                None
            }),
    {
        let key = normalize(spoken_target);
        match self.by_spoken.get(key.as_str()) {
            Some(entity) => Some(entity.clone()),
            None => None,
        }
    }
}

/// Whatever resolves is a light on the allowlist, and its spoken form is the
/// phrase it was found by.
pub proof fn law_only_allowlisted_lights_resolve(lights: Seq<Seq<char>>, w: Seq<char>)
    requires
        nameable(lights).dom().contains(w),
    ensures
        lights.contains(nameable(lights)[w]),
        "light."@.is_prefix_of(nameable(lights)[w]),
        spoken_form_of(nameable(lights)[w]) == Some(w),
{
    let i = choose|i: int| sole_claim(lights, i, w);
    assert(lights.contains(lights[i]));
}

/// A spoken form that two different entities claim resolves to neither.
pub proof fn law_ambiguous_form_does_not_resolve(
    lights: Seq<Seq<char>>,
    i: int,
    j: int,
    w: Seq<char>,
)
    requires
        0 <= i < lights.len(),
        0 <= j < lights.len(),
        lights[i] != lights[j],
        spoken_form_of(lights[i]) == Some(w),
        spoken_form_of(lights[j]) == Some(w),
    ensures
        !nameable(lights).dom().contains(w),
{
}

/// A light that alone answers to its spoken form is named by it.
pub proof fn law_a_sole_light_is_named(lights: Seq<Seq<char>>, i: int, w: Seq<char>)
    requires
        0 <= i < lights.len(),
        spoken_form_of(lights[i]) == Some(w),
        forall|j: int|
            0 <= j < lights.len() && spoken_form_of(#[trigger] lights[j]) == Some(w) ==> lights[j]
                == lights[i],
    ensures
        nameable(lights).dom().contains(w),
        nameable(lights)[w] == lights[i],
{
    assert(sole_claim(lights, i, w));
    let k = choose|k: int| sole_claim(lights, k, w);
    assert(sole_claim(lights, k, w));
    assert(lights[k] == lights[i]);
}

/// A light is spoken of by its object id, with a space for each underscore; what
/// is not a light is not spoken of.
pub proof fn law_lights_are_spoken_of_by_their_object(entity_id: Seq<char>, object_id: Seq<char>, i: int)
    ensures
        spoken_form_of("light."@ + object_id) == (if normalized(spaced(object_id)).len() == 0 {
            None
        } else {
            Some(normalized(spaced(object_id)))
        }),
        !"light."@.is_prefix_of(entity_id) ==> spoken_form_of(entity_id) is None,
        spaced(object_id).len() == object_id.len(),
        0 <= i < object_id.len() && object_id[i] == '_' ==> spaced(object_id)[i] == ' ',
        0 <= i < object_id.len() && object_id[i] != '_' ==> spaced(object_id)[i] == object_id[i],
{
    text::law_a_prefix_is_taken_off(seq![], "light."@, object_id);
}

/// What is said of a light is heard without one article in front and with single
/// spaces: the words of a phrase, but for a `the` or a `my` at its head.
pub proof fn law_an_article_makes_no_difference(lowered: Seq<char>, words: Seq<Seq<char>>)
    ensures
        spoken_key("the "@ + lowered) == text::joined(text::words(lowered), " "@),
        spoken_key("my "@ + lowered) == text::joined(text::words(lowered), " "@),
        words.len() > 0 && words[0] != "the"@ && words[0] != "my"@ ==> without_article(words) == words,
{
    reveal_strlit("the ");
    reveal_strlit("my ");
    reveal_strlit("the");
    reveal_strlit("my");
    text::law_words_are_parted_by_white_space("the"@, ' ', lowered);
    text::law_words_are_parted_by_white_space("my"@, ' ', lowered);
    assert("the "@ + lowered =~= "the"@ + seq![' '] + lowered);
    assert("my "@ + lowered =~= "my"@ + seq![' '] + lowered);
    assert((seq!["the"@] + text::words(lowered)).skip(1) =~= text::words(lowered));
    assert((seq!["my"@] + text::words(lowered)).skip(1) =~= text::words(lowered));
}

/// The light that is meant by what was heard, if any.
pub open spec fn light_meant(named: Map<Seq<char>, Seq<char>>, heard: Seq<char>) -> Option<Seq<char>> {
    if named.dom().contains(heard) {
        Some(named[heard])
    } else {
        None
    }
}

/// A light that alone answers to what was heard is meant by it, and of two that
/// answer to it neither is: nothing is guessed.
pub proof fn law_no_light_is_guessed(lights: Seq<Seq<char>>, i: int, j: int, heard: Seq<char>)
    requires
        0 <= i < lights.len(),
        0 <= j < lights.len(),
        spoken_form_of(lights[i]) == Some(heard),
        spoken_form_of(lights[j]) == Some(heard),
    ensures
        lights[i] != lights[j] ==> light_meant(nameable(lights), heard) is None,
        (forall|k: int|
            0 <= k < lights.len() && spoken_form_of(#[trigger] lights[k]) == Some(heard) ==> lights[k]
                == lights[i]) ==> light_meant(nameable(lights), heard) == Some(lights[i]),
{
    if lights[i] != lights[j] {
        law_ambiguous_form_does_not_resolve(lights, i, j, heard);
    }
    if forall|k: int|
        0 <= k < lights.len() && spoken_form_of(#[trigger] lights[k]) == Some(heard) ==> lights[k]
            == lights[i] {
        law_a_sole_light_is_named(lights, i, heard);
    }
}

} // verus!

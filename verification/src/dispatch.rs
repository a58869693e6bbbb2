//! The dispatch table of an entry: one arm for each language of the
//! dataset, in the order of the variant names.

use vstd::prelude::*;
use crate::error::{texts, Failure, ResolutionError};
use crate::i18n::check_yaml::enumval_format;
use crate::i18n::all_key;
use crate::i18n::languages::{language_list, lemma_language_list_unique, LanguageSet};
use crate::lang_yaml::{has_key, value_of, LocalizedText, Text};
use crate::text::{
    chars_of, compare, lemma_lex_total, lemma_lex_transitive, lemma_sorted_unique, lex_lt,
    strictly_sorted, LexOrder,
};

verus! {

/// An entry as the contracts see it.
pub type Entry = Seq<(Text, Text)>;

/// One arm of a dispatch table: the variant name of a language and the
/// text for it.
#[derive(Debug, PartialEq, Eq)]
pub struct DispatchArm {
    pub variant: String,
    pub text: String,
}

impl View for DispatchArm {
    type V = (Text, Text);

    open spec fn view(&self) -> (Text, Text) {
        (self.variant@, self.text@)
    }
}

/// The arms of a table as the contracts see them.
pub open spec fn arm_views(arms: Seq<DispatchArm>) -> Seq<(Text, Text)> {
    Seq::new(arms.len(), |i: int| arms[i]@)
}

/// The entry has a text for every language: its own for each of them, or
/// one for all languages.
pub open spec fn complete(entry: Entry, langs: Seq<Text>) -> bool {
    has_key(entry, all_key()) || forall|i: int|
        0 <= i < langs.len() ==> has_key(entry, #[trigger] langs[i])
}

/// `k` is a language for which the entry has no text of its own.
pub open spec fn is_missing(entry: Entry, langs: Seq<Text>, k: Text) -> bool {
    langs.contains(k) && !has_key(entry, k)
}

/// `missing` lists the languages for which the entry has no text of its
/// own, each once, in lexicographic order.
pub open spec fn missing_listing(entry: Entry, langs: Seq<Text>, missing: Seq<Text>) -> bool {
    strictly_sorted(missing) && forall|k: Text|
        missing.contains(k) <==> is_missing(entry, langs, k)
}

/// The text of the arm for the language `k`: the entry's own text for it
/// where it has one, the text for all languages where it has not.
pub open spec fn arm_text(entry: Entry, k: Text) -> Text {
    if has_key(entry, k) {
        value_of(entry, k)
    } else {
        value_of(entry, all_key())
    }
}

/// The dispatch table of the entry: for each language, in the order of the
/// list, its variant name and the text of its arm.
pub open spec fn dispatch_arms(entry: Entry, langs: Seq<Text>) -> Seq<(Text, Text)> {
    Seq::new(langs.len(), |i: int| (enumval_format(langs[i]), arm_text(entry, langs[i])))
}

/// Puts `s` into a list of strings that is in lexicographic order, at its
/// place in that order. A string that the list holds already is not put
/// in again.
pub fn insert_sorted(v: &mut Vec<String>, s: &str)
    requires
        strictly_sorted(texts(old(v)@)),
    ensures
        strictly_sorted(texts(final(v)@)),
        forall|k: Text| texts(final(v)@).contains(k) <==> texts(old(v)@).contains(k) || k == s@,
{
    let ghost before = texts(v@);
    let name = chars_of(s);
    let mut i: usize = 0;
    let mut found = false;
    while i < v.len() && !found
        invariant
            before == texts(v@),
            strictly_sorted(before),
            name@ == s@,
            i <= v.len(),
            !found ==> forall|j: int| 0 <= j < i ==> lex_lt(#[trigger] before[j], s@),
            found ==> i < v.len() && !lex_lt(before[i as int], s@),
            found ==> forall|j: int| 0 <= j < i ==> lex_lt(#[trigger] before[j], s@),
        decreases v.len() - i + (if found { 0int } else { 1int }),
    {
        let x = chars_of(v[i].as_str());
        assert(x@ == before[i as int]);
        match compare(&x, &name) {
            LexOrder::Before => {
                i += 1;
            },
            _ => {
                proof {
                    lemma_lex_total(x@, name@);
                }
                found = true;
            },
        }
    }
    if found {
        let x = chars_of(v[i].as_str());
        assert(x@ == before[i as int]);
        match compare(&x, &name) {
            LexOrder::Same => {
                assert forall|k: Text| texts(v@).contains(k) <==> before.contains(k) || k
                    == s@ by {
                    assert(before[i as int] == s@);
                }
                return ;
            },
            _ => {},
        }
        proof {
            lemma_lex_total(x@, name@);
        }
    }
    proof {
        assert forall|j: int| i <= j < before.len() implies lex_lt(s@, #[trigger] before[j]) by {
            if i < j {
                lemma_lex_transitive(s@, before[i as int], before[j]);
            }
        }
    }
    v.insert(i, s.to_owned());
    proof {
        let after = texts(v@);
        assert(after =~= before.insert(i as int, s@));
        assert forall|a: int, b: int| 0 <= a < b < after.len() implies lex_lt(
            #[trigger] after[a],
            #[trigger] after[b],
        ) by {
            if a < i && b > i {
                assert(after[a] == before[a]);
                assert(after[b] == before[b - 1]);
            } else if a < i && b < i {
                assert(after[a] == before[a]);
                assert(after[b] == before[b]);
            } else if a > i {
                assert(after[a] == before[a - 1]);
                assert(after[b] == before[b - 1]);
            } else if a == i {
                assert(after[b] == before[b - 1]);
            } else {
                assert(after[a] == before[a]);
            }
        }
        assert forall|k: Text| after.contains(k) <==> before.contains(k) || k == s@ by {
            if before.contains(k) {
                let j = choose|j: int| 0 <= j < before.len() && before[j] == k;
                if j < i {
                    assert(after[j] == k);
                } else {
                    assert(after[j + 1] == k);
                }
            }
            if k == s@ {
                assert(after[i as int] == k);
            }
            if after.contains(k) {
                let j = choose|j: int| 0 <= j < after.len() && after[j] == k;
                if j < i {
                    assert(before[j] == k);
                } else if j > i {
                    assert(before[j - 1] == k);
                }
            }
        }
    }
}

/// Builds the dispatch table of `entry` for the languages `langs`. An
/// entry without a text for all languages has to have a text for every
/// language; if it has not, the languages it lacks are reported in
/// lexicographic order. Otherwise there is one arm for each language, in
/// the order of the variant names, with the entry's own text where it has
/// one and the text for all languages where it has not.
pub fn build(entry: &LocalizedText, langs: &LanguageSet) -> (r: Result<
    Vec<DispatchArm>,
    ResolutionError,
>)
    requires
        entry.wf(),
        langs.wf(),
    ensures
        match r {
            Ok(arms) => complete(entry@, langs@) && arm_views(arms@) == dispatch_arms(
                entry@,
                langs@,
            ),
            Err(e) => {
                &&& !complete(entry@, langs@)
                &&& e@ matches Failure::MissingLanguageKey { missing }
                &&& missing_listing(entry@, langs@, missing)
            },
        },
{
    let fallback = entry.get("all");
    proof {
        reveal_strlit("all");
        assert("all"@ =~= all_key());
    }
    let mut arms: Vec<DispatchArm> = Vec::new();
    let mut missing: Vec<String> = Vec::new();
    let mut i: usize = 0;
    proof {
        assert(texts(missing@) =~= Seq::<Text>::empty());
    }
    while i < langs.len()
        invariant
            entry.wf(),
            langs.wf(),
            i <= langs@.len(),
            match fallback {
                Some(t) => has_key(entry@, all_key()) && t@ == value_of(entry@, all_key()),
                None => !has_key(entry@, all_key()),
            },
            strictly_sorted(texts(missing@)),
            fallback is Some ==> missing@.len() == 0,
            fallback is None ==> forall|k: Text|
                texts(missing@).contains(k) <==> exists|j: int|
                    0 <= j < i && #[trigger] langs@[j] == k && !has_key(entry@, k),
            missing@.len() == 0 ==> arms@.len() == i,
            missing@.len() == 0 ==> forall|j: int|
                0 <= j < i ==> (#[trigger] arms@[j])@ == (
                    enumval_format(langs@[j]),
                    arm_text(entry@, langs@[j]),
                ),
            missing@.len() == 0 && fallback is None ==> forall|j: int|
                0 <= j < i ==> has_key(entry@, #[trigger] langs@[j]),
        decreases langs@.len() - i,
    {
        let key = langs.key_at(i);
        let ghost prior = texts(missing@);
        match entry.get(key.as_str()) {
            Some(t) => {
                if missing.len() == 0 {
                    arms.push(DispatchArm { variant: langs.variant_at(i).clone(), text: t.clone() });
                }
            },
            None => match fallback {
                Some(t) => {
                    if missing.len() == 0 {
                        arms.push(
                            DispatchArm { variant: langs.variant_at(i).clone(), text: t.clone() },
                        );
                    }
                },
                None => {
                    insert_sorted(&mut missing, key.as_str());
                    assert(texts(missing@).contains(key@));
                },
            },
        }
        proof {
            let now = texts(missing@);
            assert forall|k: Text| fallback is None implies (now.contains(k) <==> exists|j: int|
                0 <= j < i + 1 && #[trigger] langs@[j] == k && !has_key(entry@, k)) by {
                if now.contains(k) {
                    if prior.contains(k) {
                        let j = choose|j: int|
                            0 <= j < i && #[trigger] langs@[j] == k && !has_key(entry@, k);
                        assert(0 <= j < i + 1 && langs@[j] == k);
                    } else {
                        assert(langs@[i as int] == k);
                    }
                }
                if exists|j: int|
                    0 <= j < i + 1 && #[trigger] langs@[j] == k && !has_key(entry@, k) {
                    let j = choose|j: int|
                        0 <= j < i + 1 && #[trigger] langs@[j] == k && !has_key(entry@, k);
                    if j < i {
                        assert(prior.contains(k));
                    }
                }
            }
        }
        i += 1;
    }
    if missing.len() == 0 {
        proof {
            assert(arm_views(arms@) =~= dispatch_arms(entry@, langs@));
            if fallback is None {
                assert forall|j: int| 0 <= j < langs@.len() implies has_key(
                    entry@,
                    #[trigger] langs@[j],
                ) by {}
            }
        }
        Ok(arms)
    } else {
        proof {
            let m = texts(missing@);
            assert(m.contains(m[0]));
            let j = choose|j: int|
                0 <= j < i && #[trigger] langs@[j] == m[0] && !has_key(entry@, m[0]);
            assert(!has_key(entry@, langs@[j]));
            assert forall|k: Text| m.contains(k) <==> is_missing(entry@, langs@, k) by {
                if is_missing(entry@, langs@, k) {
                    let x = choose|x: int| 0 <= x < langs@.len() && langs@[x] == k;
                    assert(langs@[x] == k);
                }
            }
        }
        Err(ResolutionError::MissingLanguageKey { missing })
    }
}

/// An entry that has a text of its own for every language is complete,
/// and every arm of its table holds the entry's own text for the language:
/// the text for all languages stands in for none.
pub proof fn lemma_full_entry_needs_no_fallback(entry: Entry, langs: Seq<Text>)
    requires
        forall|i: int| 0 <= i < langs.len() ==> has_key(entry, #[trigger] langs[i]),
    ensures
        complete(entry, langs),
        dispatch_arms(entry, langs).len() == langs.len(),
        forall|i: int|
            0 <= i < langs.len() ==> (#[trigger] dispatch_arms(entry, langs)[i]).1 == value_of(
                entry,
                langs[i],
            ),
{
}

/// An entry without a text for all languages that lacks a language is not
/// complete, and the list of what it lacks is not empty.
pub proof fn lemma_lacking_entry_is_incomplete(entry: Entry, langs: Seq<Text>, missing: Seq<Text>)
    requires
        !has_key(entry, all_key()),
        exists|i: int| 0 <= i < langs.len() && !has_key(entry, #[trigger] langs[i]),
        missing_listing(entry, langs, missing),
    ensures
        !complete(entry, langs),
        missing.len() > 0,
{
    let i = choose|i: int| 0 <= i < langs.len() && !has_key(entry, #[trigger] langs[i]);
    assert(langs.contains(langs[i]));
    assert(is_missing(entry, langs, langs[i]));
    assert(missing.contains(langs[i]));
}

/// There is one list of the languages that an entry lacks.
pub proof fn lemma_missing_listing_unique(
    entry: Entry,
    langs: Seq<Text>,
    m1: Seq<Text>,
    m2: Seq<Text>,
)
    requires
        missing_listing(entry, langs, m1),
        missing_listing(entry, langs, m2),
    ensures
        m1 == m2,
{
    lemma_sorted_unique(m1, m2);
}

/// The arms of a dispatch table stand in the lexicographic order of their
/// variant names, each name before the next.
pub proof fn lemma_arms_in_variant_order(entry: Entry, langs: Seq<Text>)
    requires
        language_list(langs),
    ensures
        forall|i: int, j: int|
            0 <= i < j < dispatch_arms(entry, langs).len() ==> lex_lt(
                (#[trigger] dispatch_arms(entry, langs)[i]).0,
                (#[trigger] dispatch_arms(entry, langs)[j]).0,
            ),
{
    assert forall|i: int, j: int| 0 <= i < j < dispatch_arms(entry, langs).len() implies lex_lt(
        (#[trigger] dispatch_arms(entry, langs)[i]).0,
        (#[trigger] dispatch_arms(entry, langs)[j]).0,
    ) by {
        assert(lex_lt(enumval_format(langs[i]), enumval_format(langs[j])));
    }
}

/// The dispatch table of an entry is fixed by the entry and the set of
/// languages: however the languages were gathered, the same arms come out
/// in the same order.
pub proof fn lemma_dispatch_is_determined(entry: Entry, l1: Seq<Text>, l2: Seq<Text>)
    requires
        language_list(l1),
        language_list(l2),
        forall|k: Text| l1.contains(k) <==> l2.contains(k),
    ensures
        dispatch_arms(entry, l1) == dispatch_arms(entry, l2),
        complete(entry, l1) == complete(entry, l2),
{
    lemma_language_list_unique(l1, l2);
}

} // verus!

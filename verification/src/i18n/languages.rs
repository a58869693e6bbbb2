//! The languages of a dataset: how its language keys are walked and
//! checked, and the set they are gathered into.

use vstd::prelude::*;
use crate::error::{ValidationError, ValidationFault};
use crate::i18n::check_yaml::{
    check_key, enumval_format, key_defect, key_valid, lemma_defect_free_is_valid,
    lemma_name_of_all, to_enumval_format,
};
use crate::i18n::{all_key, is_all};
use crate::lang_yaml::{LangYaml, Text};
use crate::text::{
    chars_of, compare, lemma_lex_total, lemma_lex_transitive, lemma_sorted_unique, lex_lt,
    same_text, strictly_sorted, LexOrder,
};

verus! {

/// Two different language keys, neither of them `all`, with the same
/// variant name.
pub open spec fn collides(a: Text, b: Text) -> bool {
    a != all_key() && b != all_key() && a != b && enumval_format(a) == enumval_format(b)
}

/// The variant name of each key comes before that of the next in
/// lexicographic order.
pub open spec fn sorted_by_variant(l: Seq<Text>) -> bool {
    forall|i: int, j: int|
        0 <= i < j < l.len() ==> lex_lt(
            enumval_format(#[trigger] l[i]),
            enumval_format(#[trigger] l[j]),
        )
}

/// A list of languages: valid keys, none of them `all`, in the order of
/// their variant names, no two with the same variant name.
pub open spec fn language_list(l: Seq<Text>) -> bool {
    &&& sorted_by_variant(l)
    &&& forall|i: int| 0 <= i < l.len() ==> key_valid(#[trigger] l[i]) && l[i] != all_key()
}

/// The languages of a dataset, each with its variant name, in the order of
/// the variant names.
#[derive(Debug)]
pub struct LanguageSet {
    keys: Vec<String>,
    variants: Vec<String>,
}

impl View for LanguageSet {
    type V = Seq<Text>;

    closed spec fn view(&self) -> Seq<Text> {
        Seq::new(self.keys@.len(), |i: int| self.keys@[i]@)
    }
}

impl LanguageSet {
    /// Beside each key stands its variant name.
    pub closed spec fn names_kept(&self) -> bool {
        &&& self.variants@.len() == self.keys@.len()
        &&& forall|i: int|
            0 <= i < self.keys@.len() ==> (#[trigger] self.variants@[i])@ == enumval_format(
                self.keys@[i]@,
            )
    }

    /// The keys form a list of languages.
    pub open spec fn wf(&self) -> bool {
        self.names_kept() && language_list(self@)
    }

    /// The set without languages.
    pub fn new() -> (r: Self)
        ensures
            r@ == Seq::<Text>::empty(),
            r.wf(),
    {
        let r = LanguageSet { keys: Vec::new(), variants: Vec::new() };
        assert(r@ =~= Seq::<Text>::empty());
        r
    }

    /// How many languages the set has.
    pub fn len(&self) -> (n: usize)
        ensures
            n == self@.len(),
    {
        self.keys.len()
    }

    /// The language key at place `i`.
    pub fn key_at(&self, i: usize) -> (k: &String)
        requires
            i < self@.len(),
        ensures
            k@ == self@[i as int],
    {
        &self.keys[i]
    }

    /// The variant name of the language at place `i`.
    pub fn variant_at(&self, i: usize) -> (v: &String)
        requires
            self.wf(),
            i < self@.len(),
        ensures
            v@ == enumval_format(self@[i as int]),
    {
        &self.variants[i]
    }

    /// Where a language with the variant name `name` stands or would stand:
    /// the place, and whether a language with that name is there.
    fn locate(&self, name: &Vec<char>) -> (r: (usize, bool))
        requires
            self.wf(),
        ensures
            r.0 <= self@.len(),
            forall|j: int| 0 <= j < r.0 ==> lex_lt(enumval_format(#[trigger] self@[j]), name@),
            r.1 ==> r.0 < self@.len() && enumval_format(self@[r.0 as int]) == name@,
            !r.1 ==> forall|j: int|
                r.0 <= j < self@.len() ==> lex_lt(name@, enumval_format(#[trigger] self@[j])),
    {
        let mut i: usize = 0;
        while i < self.keys.len()
            invariant
                self.wf(),
                i <= self.keys.len(),
                forall|j: int| 0 <= j < i ==> lex_lt(enumval_format(#[trigger] self@[j]), name@),
            decreases self.keys.len() - i,
        {
            let v = chars_of(self.variants[i].as_str());
            match compare(name, &v) {
                LexOrder::Same => {
                    return (i, true);
                },
                LexOrder::Before => {
                    assert forall|j: int| i <= j < self@.len() implies lex_lt(
                        name@,
                        enumval_format(#[trigger] self@[j]),
                    ) by {
                        if i < j {
                            lemma_lex_transitive(
                                name@,
                                enumval_format(self@[i as int]),
                                enumval_format(self@[j]),
                            );
                        }
                    }
                    return (i, false);
                },
                LexOrder::After => {
                    i += 1;
                },
            }
        }
        (i, false)
    }

    /// Whether `key` is one of the languages.
    pub fn contains(&self, key: &str) -> (r: bool)
        requires
            self.wf(),
        ensures
            r == self@.contains(key@),
    {
        let name = to_enumval_format(key);
        let name_chars = chars_of(name.as_str());
        let (p, found) = self.locate(&name_chars);
        if found && same_text(self.keys[p].as_str(), key) {
            true
        } else {
            proof {
                if self@.contains(key@) {
                    let j = choose|j: int| 0 <= j < self@.len() && self@[j] == key@;
                    lemma_lex_total(enumval_format(self@[j]), name_chars@);
                    if found {
                        lemma_lex_total(
                            enumval_format(self@[j]),
                            enumval_format(self@[p as int]),
                        );
                    }
                }
            }
            false
        }
    }

    /// Takes the language `key` into the set. The key `all` and a key that
    /// is in the set already leave it as it is. A key that breaks a rule
    /// is refused, and so is one whose variant name a different key of the
    /// set has; the set then stays as it is.
    pub fn insert(&mut self, key: &str) -> (r: Result<(), ValidationError>)
        requires
            old(self).wf(),
        ensures
            final(self).wf(),
            match r {
                Ok(()) => {
                    &&& key_defect(key@) is None
                    &&& forall|o: Text| old(self)@.contains(o) ==> !collides(o, key@)
                    &&& forall|k: Text|
                        final(self)@.contains(k) <==> old(self)@.contains(k) || (k == key@ && k
                            != all_key())
                },
                Err(e) => {
                    &&& final(self)@ == old(self)@
                    &&& match e@ {
                        ValidationFault::InvalidLanguageKey { key: k, reason } => {
                            k == key@ && key_defect(key@) == Some(reason)
                        },
                        ValidationFault::DuplicateCanonicalKey { a, b } => {
                            &&& key_defect(key@) is None
                            &&& b == key@
                            &&& old(self)@.contains(a)
                            &&& collides(a, b)
                        },
                    }
                },
            },
    {
        match check_key(key) {
            Some(reason) => {
                return Err(ValidationError::InvalidLanguageKey { key: key.to_owned(), reason });
            },
            None => {},
        }
        proof {
            lemma_defect_free_is_valid(key@);
        }
        if is_all(key) {
            return Ok(());
        }
        let name = to_enumval_format(key);
        let name_chars = chars_of(name.as_str());
        let (p, found) = self.locate(&name_chars);
        if found {
            if same_text(self.keys[p].as_str(), key) {
                assert forall|o: Text| self@.contains(o) implies !collides(o, key@) by {
                    let j = choose|j: int| 0 <= j < self@.len() && self@[j] == o;
                    lemma_lex_total(enumval_format(self@[j]), enumval_format(self@[p as int]));
                }
                assert(self@[p as int] == key@);
                return Ok(());
            } else {
                assert(self@[p as int] == self.keys@[p as int]@);
                return Err(
                    ValidationError::DuplicateCanonicalKey {
                        a: self.keys[p].clone(),
                        b: key.to_owned(),
                    },
                );
            }
        }
        assert forall|o: Text| self@.contains(o) implies !collides(o, key@) by {
            let j = choose|j: int| 0 <= j < self@.len() && self@[j] == o;
            lemma_lex_total(enumval_format(self@[j]), name_chars@);
        }
        let ghost before = self@;
        self.keys.insert(p, key.to_owned());
        self.variants.insert(p, name);
        proof {
            assert(self@ =~= before.insert(p as int, key@));
            assert forall|i: int, j: int| 0 <= i < j < self@.len() implies lex_lt(
                enumval_format(#[trigger] self@[i]),
                enumval_format(#[trigger] self@[j]),
            ) by {
                let x = if i < p {
                    i
                } else {
                    i - 1
                };
                let y = if j < p {
                    j
                } else {
                    j - 1
                };
                if i != p && j != p {
                    assert(self@[i] == before[x]);
                    assert(self@[j] == before[y]);
                } else if i == p {
                    assert(self@[j] == before[y]);
                } else {
                    assert(self@[i] == before[x]);
                }
            }
            assert forall|i: int| 0 <= i < self@.len() implies key_valid(#[trigger] self@[i])
                && self@[i] != all_key() by {
                if i < p {
                    assert(self@[i] == before[i]);
                } else if i > p {
                    assert(self@[i] == before[i - 1]);
                }
            }
            assert forall|k: Text| self@.contains(k) <==> before.contains(k) || (k == key@ && k
                != all_key()) by {
                if before.contains(k) {
                    let j = choose|j: int| 0 <= j < before.len() && before[j] == k;
                    if j < p {
                        assert(self@[j] == k);
                    } else {
                        assert(self@[j + 1] == k);
                    }
                }
                if k == key@ {
                    assert(self@[p as int] == k);
                }
                if self@.contains(k) {
                    let j = choose|j: int| 0 <= j < self@.len() && self@[j] == k;
                    if j < p {
                        assert(before[j] == k);
                    } else if j > p {
                        assert(before[j - 1] == k);
                    }
                }
            }
            assert(self.names_kept()) by {
                assert forall|i: int| 0 <= i < self.keys@.len() implies (
                #[trigger] self.variants@[i])@ == enumval_format(self.keys@[i]@) by {
                    if i < p {
                    } else if i > p {
                    }
                }
            }
        }
        Ok(())
    }
}

/// A dataset as the contracts see it.
pub type Dataset = Seq<(Text, Seq<(Text, Text)>)>;

/// `(m, n)` is a place of the dataset: entry `m`, and in it pair `n`.
pub open spec fn in_dataset(d: Dataset, m: int, n: int) -> bool {
    0 <= m < d.len() && 0 <= n < d[m].1.len()
}

/// The language key at a place of the dataset.
pub open spec fn lang_key(d: Dataset, m: int, n: int) -> Text {
    d[m].1[n].0
}

/// Place `(p, q)` is met before place `(m, n)` when the dataset is walked
/// entry by entry.
pub open spec fn earlier(p: int, q: int, m: int, n: int) -> bool {
    p < m || (p == m && q < n)
}

/// Some place of the dataset holds the language key `k`.
pub open spec fn names_language(d: Dataset, k: Text) -> bool {
    exists|m: int, n: int| #[trigger] in_dataset(d, m, n) && lang_key(d, m, n) == k
}

/// An earlier place holds a different key with the same variant name.
pub open spec fn clashes(d: Dataset, m: int, n: int) -> bool {
    exists|p: int, q: int|
        #[trigger] in_dataset(d, p, q) && earlier(p, q, m, n) && collides(
            lang_key(d, p, q),
            lang_key(d, m, n),
        )
}

/// The key at the place breaks a rule for keys, or has the variant name of
/// a different key met before.
pub open spec fn violates(d: Dataset, m: int, n: int) -> bool {
    key_defect(lang_key(d, m, n)) is Some || clashes(d, m, n)
}

/// No place before `(m, n)` violates.
pub open spec fn clean_before(d: Dataset, m: int, n: int) -> bool {
    forall|p: int, q: int| #[trigger]
        in_dataset(d, p, q) && earlier(p, q, m, n) ==> !violates(d, p, q)
}

/// `(m, n)` is the first place that violates.
pub open spec fn first_violation(d: Dataset, m: int, n: int) -> bool {
    in_dataset(d, m, n) && violates(d, m, n) && clean_before(d, m, n)
}

/// No place of the dataset violates.
pub open spec fn valid_dataset(d: Dataset) -> bool {
    forall|m: int, n: int| #[trigger] in_dataset(d, m, n) ==> !violates(d, m, n)
}

/// The fault names what is wrong at the place: the key and its defect, or,
/// for a key without defect, the key as `b` and as `a` a different key
/// met before that has the same variant name.
pub open spec fn describes(e: ValidationFault, d: Dataset, m: int, n: int) -> bool {
    match e {
        ValidationFault::InvalidLanguageKey { key, reason } => {
            key == lang_key(d, m, n) && key_defect(key) == Some(reason)
        },
        ValidationFault::DuplicateCanonicalKey { a, b } => {
            &&& b == lang_key(d, m, n)
            &&& key_defect(b) is None
            &&& collides(a, b)
            &&& exists|p: int, q: int|
                #[trigger] in_dataset(d, p, q) && earlier(p, q, m, n) && lang_key(d, p, q) == a
        },
    }
}

/// `l` holds the language keys met before `(m, n)`, but for `all`.
pub open spec fn gathered_before(d: Dataset, m: int, n: int, l: Seq<Text>) -> bool {
    forall|k: Text|
        l.contains(k) <==> k != all_key() && exists|p: int, q: int|
            #[trigger] in_dataset(d, p, q) && earlier(p, q, m, n) && lang_key(d, p, q) == k
}

/// `l` holds the language keys of the dataset, but for `all`.
pub open spec fn gathered(d: Dataset, l: Seq<Text>) -> bool {
    forall|k: Text| l.contains(k) <==> k != all_key() && names_language(d, k)
}

/// A key without defect that collides with nothing gathered so far moves
/// the walk one place on: nothing violates before the next place, and the
/// keys gathered are those gathered before and this one.
proof fn lemma_accept(d: Dataset, m: int, n: int, l: Seq<Text>, l2: Seq<Text>)
    requires
        in_dataset(d, m, n),
        clean_before(d, m, n),
        gathered_before(d, m, n, l),
        key_defect(lang_key(d, m, n)) is None,
        forall|o: Text| l.contains(o) ==> !collides(o, lang_key(d, m, n)),
        forall|k: Text|
            l2.contains(k) <==> l.contains(k) || (k == lang_key(d, m, n) && k != all_key()),
    ensures
        clean_before(d, m, n + 1),
        gathered_before(d, m, n + 1, l2),
{
    let key = lang_key(d, m, n);
    assert forall|p: int, q: int| #[trigger]
        in_dataset(d, p, q) && earlier(p, q, m, n + 1) implies !violates(d, p, q) by {
        if p == m && q == n {
            if clashes(d, m, n) {
                let (x, y) = choose|x: int, y: int|
                    #[trigger] in_dataset(d, x, y) && earlier(x, y, m, n) && collides(
                        lang_key(d, x, y),
                        key,
                    );
                assert(l.contains(lang_key(d, x, y)));
            }
        } else {
            assert(earlier(p, q, m, n));
        }
    }
    assert forall|k: Text|
        l2.contains(k) <==> k != all_key() && exists|p: int, q: int|
            #[trigger] in_dataset(d, p, q) && earlier(p, q, m, n + 1) && lang_key(d, p, q)
                == k by {
        if l2.contains(k) {
            if l.contains(k) {
                let (x, y) = choose|x: int, y: int|
                    #[trigger] in_dataset(d, x, y) && earlier(x, y, m, n) && lang_key(d, x, y)
                        == k;
                assert(in_dataset(d, x, y) && earlier(x, y, m, n + 1));
            } else {
                assert(in_dataset(d, m, n) && earlier(m, n, m, n + 1));
            }
        }
        if k != all_key() && exists|p: int, q: int|
            #[trigger] in_dataset(d, p, q) && earlier(p, q, m, n + 1) && lang_key(d, p, q) == k {
            let (x, y) = choose|x: int, y: int|
                #[trigger] in_dataset(d, x, y) && earlier(x, y, m, n + 1) && lang_key(d, x, y)
                    == k;
            if !(x == m && y == n) {
                assert(in_dataset(d, x, y) && earlier(x, y, m, n));
            }
        }
    }
}

/// A key with a defect, or one that collides with a key gathered so far,
/// is the first violation, and the fault describes it.
proof fn lemma_reject(d: Dataset, m: int, n: int, l: Seq<Text>, e: ValidationFault)
    requires
        in_dataset(d, m, n),
        clean_before(d, m, n),
        gathered_before(d, m, n, l),
        match e {
            ValidationFault::InvalidLanguageKey { key, reason } => {
                key == lang_key(d, m, n) && key_defect(key) == Some(reason)
            },
            ValidationFault::DuplicateCanonicalKey { a, b } => {
                &&& b == lang_key(d, m, n)
                &&& key_defect(b) is None
                &&& l.contains(a)
                &&& collides(a, b)
            },
        },
    ensures
        first_violation(d, m, n),
        describes(e, d, m, n),
{
    match e {
        ValidationFault::InvalidLanguageKey { key, reason } => {},
        ValidationFault::DuplicateCanonicalKey { a, b } => {
            let (x, y) = choose|x: int, y: int|
                #[trigger] in_dataset(d, x, y) && earlier(x, y, m, n) && lang_key(d, x, y) == a;
            assert(in_dataset(d, x, y) && earlier(x, y, m, n) && collides(
                lang_key(d, x, y),
                lang_key(d, m, n),
            ));
        },
    }
}

/// Walks the dataset entry by entry and gathers its languages. The first
/// key that breaks a rule, or that has the variant name of a different key
/// met before, ends the walk with its fault.
pub fn collect_languages(yaml: &LangYaml) -> (r: Result<LanguageSet, ValidationError>)
    requires
        yaml.wf(),
    ensures
        match r {
            Ok(set) => set.wf() && valid_dataset(yaml@) && gathered(yaml@, set@),
            Err(e) => exists|m: int, n: int|
                #[trigger] first_violation(yaml@, m, n) && describes(e@, yaml@, m, n),
        },
{
    let ghost d = yaml@;
    let mut set = LanguageSet::new();
    let mut m: usize = 0;
    proof {
        assert(!set@.contains(all_key()));
    }
    while m < yaml.len()
        invariant
            d == yaml@,
            m <= d.len(),
            set.wf(),
            clean_before(d, m as int, 0),
            gathered_before(d, m as int, 0, set@),
        decreases d.len() - m,
    {
        let entry = yaml.entry_at(m);
        let mut n: usize = 0;
        while n < entry.len()
            invariant
                d == yaml@,
                m < d.len(),
                entry@ == d[m as int].1,
                n <= entry@.len(),
                set.wf(),
                clean_before(d, m as int, n as int),
                gathered_before(d, m as int, n as int, set@),
            decreases entry@.len() - n,
        {
            let key = entry.key_at(n);
            let ghost l = set@;
            assert(in_dataset(d, m as int, n as int));
            match set.insert(key.as_str()) {
                Ok(()) => {
                    proof {
                        lemma_accept(d, m as int, n as int, l, set@);
                    }
                },
                Err(e) => {
                    proof {
                        lemma_reject(d, m as int, n as int, l, e@);
                    }
                    return Err(e);
                },
            }
            n += 1;
        }
        proof {
            assert forall|p: int, q: int| #[trigger]
                in_dataset(d, p, q) && earlier(p, q, m + 1, 0) implies earlier(
                p,
                q,
                m as int,
                n as int,
            ) by {}
            assert forall|p: int, q: int| #[trigger]
                in_dataset(d, p, q) && earlier(p, q, m as int, n as int) implies earlier(
                p,
                q,
                m + 1,
                0,
            ) by {}
        }
        m += 1;
    }
    proof {
        assert forall|p: int, q: int| #[trigger] in_dataset(d, p, q) implies earlier(
            p,
            q,
            m as int,
            0,
        ) by {}
    }
    Ok(set)
}

/// Two lists of languages that hold the same keys are the same list: the
/// order of the variant names leaves one way to list them.
pub proof fn lemma_language_list_unique(l1: Seq<Text>, l2: Seq<Text>)
    requires
        language_list(l1),
        language_list(l2),
        forall|k: Text| l1.contains(k) <==> l2.contains(k),
    ensures
        l1 == l2,
{
    let n1 = variant_names(l1);
    let n2 = variant_names(l2);
    assert forall|x: Text| n1.contains(x) <==> n2.contains(x) by {
        if n1.contains(x) {
            let i = choose|i: int| 0 <= i < n1.len() && n1[i] == x;
            assert(l1.contains(l1[i]));
            let j = choose|j: int| 0 <= j < l2.len() && l2[j] == l1[i];
            assert(n2[j] == x);
        }
        if n2.contains(x) {
            let i = choose|i: int| 0 <= i < n2.len() && n2[i] == x;
            assert(l2.contains(l2[i]));
            let j = choose|j: int| 0 <= j < l1.len() && l1[j] == l2[i];
            assert(n1[j] == x);
        }
    }
    assert(strictly_sorted(n1)) by {
        assert forall|i: int, j: int| 0 <= i < j < n1.len() implies lex_lt(
            #[trigger] n1[i],
            #[trigger] n1[j],
        ) by {
            assert(lex_lt(enumval_format(l1[i]), enumval_format(l1[j])));
        }
    }
    assert(strictly_sorted(n2)) by {
        assert forall|i: int, j: int| 0 <= i < j < n2.len() implies lex_lt(
            #[trigger] n2[i],
            #[trigger] n2[j],
        ) by {
            assert(lex_lt(enumval_format(l2[i]), enumval_format(l2[j])));
        }
    }
    lemma_sorted_unique(n1, n2);
    assert(l1.len() == n1.len() && l2.len() == n2.len());
    assert forall|i: int| 0 <= i < l1.len() implies l1[i] == l2[i] by {
        assert(l2.contains(l2[i]));
        let j = choose|j: int| 0 <= j < l1.len() && l1[j] == l2[i];
        assert(n1[j] == n2[i]);
        assert(n1[i] == n2[i]);
        lemma_lex_total(enumval_format(l1[i]), enumval_format(l1[j]));
        if i < j {
            assert(lex_lt(enumval_format(l1[i]), enumval_format(l1[j])));
        } else if j < i {
            assert(lex_lt(enumval_format(l1[j]), enumval_format(l1[i])));
        }
    }
    assert(l1 =~= l2);
}

/// In a list of languages no two places hold the same variant name, nor
/// the same key.
pub proof fn lemma_language_list_injective(l: Seq<Text>, i: int, j: int)
    requires
        language_list(l),
        0 <= i < l.len(),
        0 <= j < l.len(),
        i != j,
    ensures
        enumval_format(l[i]) != enumval_format(l[j]),
        l[i] != l[j],
{
    lemma_lex_total(enumval_format(l[i]), enumval_format(l[j]));
    if i < j {
        assert(lex_lt(enumval_format(l[i]), enumval_format(l[j])));
    } else {
        assert(lex_lt(enumval_format(l[j]), enumval_format(l[i])));
    }
}

/// The languages of a dataset are fixed by the dataset: two lists of
/// languages gathered from it are the same list.
pub proof fn lemma_languages_determined(d: Dataset, l1: Seq<Text>, l2: Seq<Text>)
    requires
        language_list(l1),
        language_list(l2),
        gathered(d, l1),
        gathered(d, l2),
    ensures
        l1 == l2,
{
    lemma_language_list_unique(l1, l2);
}

/// In a dataset that passes the check every language key meets the rules
/// for keys.
pub proof fn lemma_checked_keys_are_valid(d: Dataset, m: int, n: int)
    requires
        valid_dataset(d),
        in_dataset(d, m, n),
    ensures
        key_valid(lang_key(d, m, n)),
{
    lemma_defect_free_is_valid(lang_key(d, m, n));
}

/// In a dataset that passes the check no two different language keys have
/// the same variant name.
pub proof fn lemma_checked_keys_have_own_names(d: Dataset, m: int, n: int, p: int, q: int)
    requires
        valid_dataset(d),
        in_dataset(d, m, n),
        in_dataset(d, p, q),
        lang_key(d, m, n) != lang_key(d, p, q),
    ensures
        enumval_format(lang_key(d, m, n)) != enumval_format(lang_key(d, p, q)),
{
    let a = lang_key(d, m, n);
    let b = lang_key(d, p, q);
    lemma_checked_keys_are_valid(d, m, n);
    lemma_checked_keys_are_valid(d, p, q);
    if enumval_format(a) == enumval_format(b) {
        if a == all_key() {
            lemma_name_of_all(b);
        } else if b == all_key() {
            lemma_name_of_all(a);
        } else if earlier(m, n, p, q) {
            assert(in_dataset(d, m, n) && earlier(m, n, p, q) && collides(a, b));
            assert(clashes(d, p, q));
        } else {
            assert(in_dataset(d, p, q) && earlier(p, q, m, n) && collides(b, a));
            assert(clashes(d, m, n));
        }
    }
}

/// The variant names of a list of languages, in the order of the list.
pub open spec fn variant_names(l: Seq<Text>) -> Seq<Text> {
    Seq::new(l.len(), |i: int| enumval_format(l[i]))
}

} // verus!

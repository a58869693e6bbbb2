//! The dataset: message keys, each with its texts by language key. Both
//! levels keep their pairs in the order in which they were inserted, and no
//! key twice.

use vstd::prelude::*;
use crate::text::same_text;

verus! {

/// A text as the contracts see it.
pub type Text = Seq<char>;

/// No key stands at two places of the list.
pub open spec fn keys_distinct<V>(e: Seq<(Text, V)>) -> bool {
    forall|i: int, j: int| 0 <= i < j < e.len() ==> e[i].0 != e[j].0
}

/// Some pair of the list has the key `k`.
pub open spec fn has_key<V>(e: Seq<(Text, V)>, k: Text) -> bool {
    exists|i: int| 0 <= i < e.len() && #[trigger] e[i].0 == k
}

/// A place at which the key `k` stands, where it stands anywhere.
pub open spec fn index_of<V>(e: Seq<(Text, V)>, k: Text) -> int {
    choose|i: int| 0 <= i < e.len() && #[trigger] e[i].0 == k
}

/// What the list holds under the key `k`, where it holds the key.
pub open spec fn value_of<V>(e: Seq<(Text, V)>, k: Text) -> V {
    e[index_of(e, k)].1
}

/// The list with `v` under the key `k`: in place of the old value where
/// the key was there, at the end where it was not.
pub open spec fn with_pair<V>(e: Seq<(Text, V)>, k: Text, v: V) -> Seq<(Text, V)> {
    if has_key(e, k) {
        e.update(index_of(e, k), (k, v))
    } else {
        e.push((k, v))
    }
}

/// In a list without repeated keys, the key at place `i` is found there
/// and nowhere else.
pub proof fn lemma_key_at<V>(e: Seq<(Text, V)>, i: int)
    requires
        keys_distinct(e),
        0 <= i < e.len(),
    ensures
        has_key(e, e[i].0),
        index_of(e, e[i].0) == i,
        value_of(e, e[i].0) == e[i].1,
{
}

/// Putting a pair into a list without repeated keys leaves it without
/// repeated keys; the new key is then found with the new value, and every
/// other key as before.
pub proof fn lemma_with_pair<V>(e: Seq<(Text, V)>, k: Text, v: V)
    requires
        keys_distinct(e),
    ensures
        keys_distinct(with_pair(e, k, v)),
        has_key(with_pair(e, k, v), k),
        value_of(with_pair(e, k, v), k) == v,
        forall|o: Text|
            o != k ==> (has_key(with_pair(e, k, v), o) <==> has_key(e, o)) && (has_key(e, o)
                ==> value_of(with_pair(e, k, v), o) == value_of(e, o)),
{
    let w = with_pair(e, k, v);
    let p = if has_key(e, k) {
        index_of(e, k)
    } else {
        e.len() as int
    };
    assert(w[p].0 == k);
    assert(keys_distinct(w));
    lemma_key_at(w, p);
    assert forall|o: Text| o != k implies (has_key(w, o) <==> has_key(e, o)) && (has_key(e, o)
        ==> value_of(w, o) == value_of(e, o)) by {
        if has_key(e, o) {
            let i = index_of(e, o);
            assert(w[i].0 == o);
            lemma_key_at(w, i);
            lemma_key_at(e, i);
        }
        if has_key(w, o) {
            let i = index_of(w, o);
            assert(e[i].0 == o);
        }
    }
}

/// The texts of one message, by language key.
#[derive(Debug)]
pub struct LocalizedText {
    elem: Vec<(String, String)>,
}

impl View for LocalizedText {
    type V = Seq<(Text, Text)>;

    closed spec fn view(&self) -> Seq<(Text, Text)> {
        Seq::new(self.elem@.len(), |i: int| (self.elem@[i].0@, self.elem@[i].1@))
    }
}

impl LocalizedText {
    /// No language key occurs twice.
    pub open spec fn wf(&self) -> bool {
        keys_distinct(self@)
    }

    /// An entry without texts.
    pub fn new() -> (r: Self)
        ensures
            r@ == Seq::<(Text, Text)>::empty(),
            r.wf(),
    {
        let r = LocalizedText { elem: Vec::new() };
        r
    }

    /// How many language keys the entry has.
    pub fn len(&self) -> (n: usize)
        ensures
            n == self@.len(),
    {
        self.elem.len()
    }

    /// The language key at place `i`.
    pub fn key_at(&self, i: usize) -> (k: &String)
        requires
            i < self@.len(),
        ensures
            k@ == self@[i as int].0,
    {
        &self.elem[i].0
    }

    /// The text at place `i`.
    pub fn text_at(&self, i: usize) -> (t: &String)
        requires
            i < self@.len(),
        ensures
            t@ == self@[i as int].1,
    {
        &self.elem[i].1
    }

    /// The place of the language key `lang`, if the entry has it.
    pub fn position(&self, lang: &str) -> (r: Option<usize>)
        ensures
            match r {
                Some(i) => {
                    &&& i < self@.len()
                    &&& self@[i as int].0 == lang@
                    &&& forall|j: int| 0 <= j < i ==> self@[j].0 != lang@
                },
                None => !has_key(self@, lang@),
            },
    {
        let mut i: usize = 0;
        while i < self.elem.len()
            invariant
                i <= self.elem.len(),
                forall|j: int| 0 <= j < i ==> self@[j].0 != lang@,
            decreases self.elem.len() - i,
        {
            if same_text(self.elem[i].0.as_str(), lang) {
                return Some(i);
            }
            i += 1;
        }
        None
    }

    /// Whether the entry has a text under `lang`.
    pub fn contains_key(&self, lang: &str) -> (r: bool)
        ensures
            r == has_key(self@, lang@),
    {
        self.position(lang).is_some()
    }

    /// The text under `lang`, if the entry has one.
    pub fn get(&self, lang: &str) -> (r: Option<&String>)
        requires
            self.wf(),
        ensures
            match r {
                Some(t) => has_key(self@, lang@) && t@ == value_of(self@, lang@),
                None => !has_key(self@, lang@),
            },
    {
        match self.position(lang) {
            Some(i) => {
                proof {
                    lemma_key_at(self@, i as int);
                }
                Some(&self.elem[i].1)
            },
            None => None,
        }
    }

    /// Puts `text` under `lang`: in place of the old text where the entry
    /// had the key, at the end where it had not.
    pub fn insert(&mut self, lang: String, text: String)
        requires
            old(self).wf(),
        ensures
            final(self)@ == with_pair(old(self)@, lang@, text@),
            final(self).wf(),
    {
        proof {
            lemma_with_pair(self@, lang@, text@);
        }
        match self.position(lang.as_str()) {
            Some(i) => {
                proof {
                    lemma_key_at(self@, i as int);
                }
                self.elem.set(i, (lang, text));
                assert(self@ =~= with_pair(old(self)@, lang@, text@));
            },
            None => {
                self.elem.push((lang, text));
                assert(self@ =~= with_pair(old(self)@, lang@, text@));
            },
        }
    }
}

/// The whole dataset: the entries by message key.
#[derive(Debug)]
pub struct LangYaml {
    entries: Vec<(String, LocalizedText)>,
}

impl View for LangYaml {
    type V = Seq<(Text, Seq<(Text, Text)>)>;

    closed spec fn view(&self) -> Seq<(Text, Seq<(Text, Text)>)> {
        Seq::new(self.entries@.len(), |i: int| (self.entries@[i].0@, self.entries@[i].1@))
    }
}

impl LangYaml {
    /// No message key occurs twice, and in no entry a language key.
    pub open spec fn wf(&self) -> bool {
        &&& keys_distinct(self@)
        &&& forall|i: int| 0 <= i < self@.len() ==> keys_distinct(#[trigger] self@[i].1)
    }

    /// A dataset without entries.
    pub fn new() -> (r: Self)
        ensures
            r@ == Seq::<(Text, Seq<(Text, Text)>)>::empty(),
            r.wf(),
    {
        let r = LangYaml { entries: Vec::new() };
        r
    }

    /// How many message keys the dataset has.
    pub fn len(&self) -> (n: usize)
        ensures
            n == self@.len(),
    {
        self.entries.len()
    }

    /// The message key at place `i`.
    pub fn key_at(&self, i: usize) -> (k: &String)
        requires
            i < self@.len(),
        ensures
            k@ == self@[i as int].0,
    {
        &self.entries[i].0
    }

    /// The entry at place `i`.
    pub fn entry_at(&self, i: usize) -> (e: &LocalizedText)
        requires
            i < self@.len(),
        ensures
            e@ == self@[i as int].1,
    {
        &self.entries[i].1
    }

    /// The place of the message key `key`, if the dataset has it.
    pub fn position(&self, key: &str) -> (r: Option<usize>)
        ensures
            match r {
                Some(i) => {
                    &&& i < self@.len()
                    &&& self@[i as int].0 == key@
                    &&& forall|j: int| 0 <= j < i ==> self@[j].0 != key@
                },
                None => !has_key(self@, key@),
            },
    {
        let mut i: usize = 0;
        while i < self.entries.len()
            invariant
                i <= self.entries.len(),
                forall|j: int| 0 <= j < i ==> self@[j].0 != key@,
            decreases self.entries.len() - i,
        {
            if same_text(self.entries[i].0.as_str(), key) {
                return Some(i);
            }
            i += 1;
        }
        None
    }

    /// The entry under `key`, if the dataset has one.
    pub fn get(&self, key: &str) -> (r: Option<&LocalizedText>)
        requires
            self.wf(),
        ensures
            match r {
                Some(e) => has_key(self@, key@) && e@ == value_of(self@, key@) && e.wf(),
                None => !has_key(self@, key@),
            },
    {
        match self.position(key) {
            Some(i) => {
                proof {
                    lemma_key_at(self@, i as int);
                }
                Some(&self.entries[i].1)
            },
            None => None,
        }
    }

    /// Puts `entry` under `key`: in place of the old entry where the
    /// dataset had the key, at the end where it had not.
    pub fn insert(&mut self, key: String, entry: LocalizedText)
        requires
            old(self).wf(),
            entry.wf(),
        ensures
            final(self)@ == with_pair(old(self)@, key@, entry@),
            final(self).wf(),
    {
        proof {
            lemma_with_pair(self@, key@, entry@);
        }
        match self.position(key.as_str()) {
            Some(i) => {
                proof {
                    lemma_key_at(self@, i as int);
                }
                self.entries.set(i, (key, entry));
                assert(self@ =~= with_pair(old(self)@, key@, entry@));
            },
            None => {
                self.entries.push((key, entry));
                assert(self@ =~= with_pair(old(self)@, key@, entry@));
            },
        }
    }
}

} // verus!

//! Registering a dataset: its language keys are checked and gathered into
//! the set of languages that every localized message has to cover.

pub mod check_yaml;
pub mod languages;
pub mod update_yaml;

use vstd::prelude::*;
use crate::error::{texts, RegistrationError, ValidationError};
use crate::i18n::check_yaml::enumval_format;
use crate::i18n::languages::{
    collect_languages, describes, first_violation, gathered, language_list, valid_dataset,
    variant_names, Dataset, LanguageSet,
};
use crate::lang_yaml::{LangYaml, Text};
use crate::text::{chars_of, same_text, strictly_sorted};

verus! {

/// The reserved language key whose text stands in for every language that
/// an entry does not name.
pub open spec fn all_key() -> Text {
    seq!['a', 'l', 'l']
}

/// Whether `key` is the reserved key `all`.
pub fn is_all(key: &str) -> (r: bool)
    ensures
        r == (key@ == all_key()),
{
    proof {
        reveal_strlit("all");
        assert("all"@ =~= all_key());
    }
    same_text(key, "all")
}

/// `s` ends with the characters of `suffix`.
pub open spec fn ends_with(s: Text, suffix: Text) -> bool {
    s.len() >= suffix.len() && s.subrange(s.len() - suffix.len(), s.len() as int) == suffix
}

/// The ending that the path of a dataset file has.
pub open spec fn yaml_suffix() -> Text {
    seq!['.', 'y', 'a', 'm', 'l']
}

/// Whether `path` ends in `.yaml`.
pub fn is_yaml_path(path: &str) -> (r: bool)
    ensures
        r == ends_with(path@, yaml_suffix()),
{
    proof {
        reveal_strlit(".yaml");
        assert(".yaml"@ =~= yaml_suffix());
    }
    let p = chars_of(path);
    let e = chars_of(".yaml");
    if p.len() < e.len() {
        return false;
    }
    let start = p.len() - e.len();
    let mut i: usize = 0;
    while i < e.len()
        invariant
            p@ == path@,
            e@ == yaml_suffix(),
            start + e.len() == p.len(),
            i <= e.len(),
            forall|j: int| 0 <= j < i ==> p@[start + j] == e@[j],
        decreases e.len() - i,
    {
        if p[start + i] != e[i] {
            assert(p@.subrange(start as int, p@.len() as int)[i as int] != e@[i as int]);
            return false;
        }
        i += 1;
    }
    assert(p@.subrange(start as int, p@.len() as int) =~= e@);
    true
}

/// What came of loading the dataset file.
#[derive(Debug)]
pub enum SourceLoad {
    /// There is no file at the path.
    Missing,
    /// The file could not be read.
    Unreadable,
    /// The text of the file is no dataset.
    Malformed,
    /// The file held this dataset.
    Parsed(LangYaml),
}

/// The state of one build: the registered dataset, if any, with its
/// languages, the path it came from and the modification time of the file
/// when it was last read.
#[derive(Debug)]
pub struct BuildSession {
    path: String,
    modified: Option<u128>,
    data: Option<LangYaml>,
    langs: LanguageSet,
}

impl BuildSession {
    /// Whether a dataset is registered.
    pub closed spec fn registered(&self) -> bool {
        self.data is Some
    }

    /// The registered dataset.
    pub closed spec fn dataset(&self) -> Dataset {
        self.data->0@
    }

    /// The languages of the registered dataset.
    pub closed spec fn languages(&self) -> Seq<Text> {
        self.langs@
    }

    /// The path of the registered dataset.
    pub closed spec fn source_path(&self) -> Text {
        self.path@
    }

    /// The modification time at which the dataset file was last read, if
    /// it was read since the dataset was registered.
    pub closed spec fn last_modified(&self) -> Option<u128> {
        self.modified
    }

    /// A registered dataset has passed the check, and the languages are
    /// those of the dataset.
    pub closed spec fn wf(&self) -> bool {
        &&& self.langs.wf()
        &&& match self.data {
            Some(d) => d.wf() && valid_dataset(d@) && gathered(d@, self.langs@),
            None => self.langs@.len() == 0,
        }
    }

    /// What `wf` says of a session, in terms of its dataset and languages.
    pub proof fn lemma_wf(&self)
        requires
            self.wf(),
        ensures
            language_list(self.languages()),
            self.registered() ==> valid_dataset(self.dataset()) && gathered(
                self.dataset(),
                self.languages(),
            ),
            !self.registered() ==> self.languages().len() == 0,
    {
    }

    /// A session in which nothing is registered.
    pub fn new() -> (r: Self)
        ensures
            r.wf(),
            !r.registered(),
            r.last_modified() is None,
    {
        BuildSession { path: String::new(), modified: None, data: None, langs: LanguageSet::new() }
    }

    /// Whether a dataset is registered.
    pub fn is_registered(&self) -> (r: bool)
        ensures
            r == self.registered(),
    {
        self.data.is_some()
    }

    /// The registered dataset, if there is one.
    pub fn data(&self) -> (r: Option<&LangYaml>)
        requires
            self.wf(),
        ensures
            match r {
                Some(d) => self.registered() && d@ == self.dataset() && d.wf(),
                None => !self.registered(),
            },
    {
        self.data.as_ref()
    }

    /// The languages of the registered dataset.
    pub fn langs(&self) -> (r: &LanguageSet)
        requires
            self.wf(),
        ensures
            r@ == self.languages(),
            r.wf(),
    {
        &self.langs
    }

    /// The path of the registered dataset.
    pub fn path(&self) -> (r: &String)
        ensures
            r@ == self.source_path(),
    {
        &self.path
    }

    /// The variant names of the languages, in lexicographic order.
    pub fn variants(&self) -> (r: Vec<String>)
        requires
            self.wf(),
        ensures
            texts(r@) == variant_names(self.languages()),
            strictly_sorted(texts(r@)),
    {
        let mut out: Vec<String> = Vec::new();
        let mut i: usize = 0;
        while i < self.langs.len()
            invariant
                self.langs.wf(),
                i <= self.langs@.len(),
                out@.len() == i,
                forall|j: int| 0 <= j < i ==> (#[trigger] out@[j])@ == enumval_format(self.langs@[j]),
            decreases self.langs@.len() - i,
        {
            out.push(self.langs.variant_at(i).clone());
            i += 1;
        }
        assert(texts(out@) =~= variant_names(self.langs@));
        out
    }

    /// Registers `yaml` as the dataset of the session, read from `path`.
    /// A dataset that passes the check takes the place of whatever was
    /// registered, and the variant names of its languages come back in
    /// lexicographic order. A dataset that does not pass leaves the
    /// session as it was.
    pub fn register_dataset(&mut self, path: &str, yaml: LangYaml) -> (r: Result<
        Vec<String>,
        ValidationError,
    >)
        requires
            old(self).wf(),
            yaml.wf(),
        ensures
            final(self).wf(),
            match r {
                Ok(names) => {
                    &&& valid_dataset(yaml@)
                    &&& final(self).registered()
                    &&& final(self).dataset() == yaml@
                    &&& final(self).source_path() == path@
                    &&& final(self).last_modified() is None
                    &&& language_list(final(self).languages())
                    &&& gathered(yaml@, final(self).languages())
                    &&& texts(names@) == variant_names(final(self).languages())
                    &&& strictly_sorted(texts(names@))
                },
                Err(e) => {
                    &&& *final(self) == *old(self)
                    &&& exists|m: int, n: int|
                        #[trigger] first_violation(yaml@, m, n) && describes(e@, yaml@, m, n)
                },
            },
    {
        match collect_languages(&yaml) {
            Ok(set) => {
                self.path = path.to_owned();
                self.modified = None;
                self.data = Some(yaml);
                self.langs = set;
                Ok(self.variants())
            },
            Err(e) => Err(e),
        }
    }
}

/// Registers the dataset that loading the file at `path` gave. The path
/// has to end in `.yaml`, the file has to be there, readable and a
/// dataset, and the dataset has to pass the check; the first of these
/// that fails decides the error, and the session stays as it was.
pub fn i18n_parse(session: &mut BuildSession, path: &str, load: SourceLoad) -> (r: Result<
    Vec<String>,
    RegistrationError,
>)
    requires
        old(session).wf(),
        load matches SourceLoad::Parsed(y) ==> y.wf(),
    ensures
        final(session).wf(),
        r is Err ==> *final(session) == *old(session),
        !ends_with(path@, yaml_suffix()) ==> r == Err::<Vec<String>, _>(
            RegistrationError::ExpectedYamlPath,
        ),
        ends_with(path@, yaml_suffix()) ==> match load {
            SourceLoad::Missing => r == Err::<Vec<String>, _>(RegistrationError::FileNotFound),
            SourceLoad::Unreadable => r == Err::<Vec<String>, _>(RegistrationError::FailedToOpen),
            SourceLoad::Malformed => r == Err::<Vec<String>, _>(
                RegistrationError::MalformedSource,
            ),
            SourceLoad::Parsed(y) => match r {
                Ok(names) => {
                    &&& valid_dataset(y@)
                    &&& final(session).registered()
                    &&& final(session).dataset() == y@
                    &&& final(session).source_path() == path@
                    &&& final(session).last_modified() is None
                    &&& gathered(y@, final(session).languages())
                    &&& texts(names@) == variant_names(final(session).languages())
                    &&& strictly_sorted(texts(names@))
                },
                Err(RegistrationError::Invalid(e)) => exists|m: int, n: int|
                    #[trigger] first_violation(y@, m, n) && describes(e@, y@, m, n),
                Err(_) => false,
            },
        },
{
    if !is_yaml_path(path) {
        return Err(RegistrationError::ExpectedYamlPath);
    }
    match load {
        SourceLoad::Missing => Err(RegistrationError::FileNotFound),
        SourceLoad::Unreadable => Err(RegistrationError::FailedToOpen),
        SourceLoad::Malformed => Err(RegistrationError::MalformedSource),
        SourceLoad::Parsed(yaml) => match session.register_dataset(path, yaml) {
            Ok(names) => Ok(names),
            Err(e) => Err(RegistrationError::Invalid(e)),
        },
    }
}

} // verus!

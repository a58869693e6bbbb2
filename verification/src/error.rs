//! What can go wrong when a dataset is registered.

use vstd::prelude::*;
use crate::i18n::check_yaml::KeyDefect;
use crate::lang_yaml::Text;

verus! {

/// Why a dataset is refused.
#[derive(Debug, PartialEq, Eq)]
pub enum ValidationError {
    /// A language key breaks one of the rules for keys.
    InvalidLanguageKey { key: String, reason: KeyDefect },
    /// Two different language keys, `a` met before `b`, have the same
    /// variant name.
    DuplicateCanonicalKey { a: String, b: String },
}

/// A `ValidationError` as the contracts see it.
pub enum ValidationFault {
    InvalidLanguageKey { key: Text, reason: KeyDefect },
    DuplicateCanonicalKey { a: Text, b: Text },
}

impl View for ValidationError {
    type V = ValidationFault;

    open spec fn view(&self) -> ValidationFault {
        match self {
            ValidationError::InvalidLanguageKey { key, reason } => {
                ValidationFault::InvalidLanguageKey { key: key@, reason: *reason }
            },
            ValidationError::DuplicateCanonicalKey { a, b } => {
                ValidationFault::DuplicateCanonicalKey { a: a@, b: b@ }
            },
        }
    }
}

/// Why a dataset could not be registered.
#[derive(Debug, PartialEq, Eq)]
pub enum RegistrationError {
    /// The path does not end in `.yaml`.
    ExpectedYamlPath,
    /// There is no file at the path.
    FileNotFound,
    /// The file could not be read.
    FailedToOpen,
    /// The text is no dataset: message keys, each with texts by language
    /// key.
    MalformedSource,
    /// The dataset breaks a rule.
    Invalid(ValidationError),
}

/// What is wrong with the arguments of a query.
#[derive(Clone, Copy, Debug, PartialEq, Eq, Structural)]
pub enum ShapeDefect {
    /// There is no argument at all.
    NoArguments,
    /// There are more arguments than the query takes.
    TooManyArguments,
    /// The first argument is no string literal.
    KeyNotLiteral,
}

/// Why a query could not be resolved.
#[derive(Debug, PartialEq, Eq)]
pub enum ResolutionError {
    /// No dataset is registered.
    SourceNotRegistered,
    /// The arguments do not have the shape of a query.
    MalformedQueryShape(ShapeDefect),
    /// The dataset has no entry under the message key.
    UnknownKey(String),
    /// The entry has texts by language, and no language was given.
    MissingLanguageSelector,
    /// The entry has only the text for all languages, and a language was
    /// given.
    SelectorNotApplicable,
    /// The entry has no text for these languages, listed in lexicographic
    /// order, and none for all languages.
    MissingLanguageKey { missing: Vec<String> },
    /// The entry has no text for all languages where one is needed.
    MissingFallback,
}

/// The texts of a list of strings.
pub open spec fn texts(v: Seq<String>) -> Seq<Text> {
    Seq::new(v.len(), |i: int| v[i]@)
}

/// A `ResolutionError` as the contracts see it.
pub enum Failure {
    SourceNotRegistered,
    MalformedQueryShape(ShapeDefect),
    UnknownKey(Text),
    MissingLanguageSelector,
    SelectorNotApplicable,
    MissingLanguageKey { missing: Seq<Text> },
    MissingFallback,
}

impl View for ResolutionError {
    type V = Failure;

    open spec fn view(&self) -> Failure {
        match self {
            ResolutionError::SourceNotRegistered => Failure::SourceNotRegistered,
            ResolutionError::MalformedQueryShape(d) => Failure::MalformedQueryShape(*d),
            ResolutionError::UnknownKey(k) => Failure::UnknownKey(k@),
            ResolutionError::MissingLanguageSelector => Failure::MissingLanguageSelector,
            ResolutionError::SelectorNotApplicable => Failure::SelectorNotApplicable,
            ResolutionError::MissingLanguageKey { missing } => Failure::MissingLanguageKey {
                missing: texts(missing@),
            },
            ResolutionError::MissingFallback => Failure::MissingFallback,
        }
    }
}

/// What is said of a key with the defect.
pub open spec fn defect_text(d: KeyDefect) -> Text {
    match d {
        KeyDefect::Empty => "Failed to get char"@,
        KeyDefect::FirstCharacter => "The first character of the language key contains something other than ascii_alphabet."@,
        KeyDefect::BodyCharacter => "Language keys cannot be anything other than ascii_alphabet or ascii_discrit."@,
        KeyDefect::UpperCase => "The language key must be in all lowercase."@,
        KeyDefect::TrailingUnderscore => "The last character of the language key cannot be an underscore."@,
    }
}

/// What is said of a dataset that is refused.
pub open spec fn validation_text(e: ValidationFault) -> Text {
    match e {
        ValidationFault::InvalidLanguageKey { key, reason } => defect_text(reason),
        ValidationFault::DuplicateCanonicalKey { a, b } => "The same key exists in yaml."@,
    }
}

/// What is said of arguments with the defect.
pub open spec fn shape_text(d: ShapeDefect) -> Text {
    match d {
        ShapeDefect::NoArguments => "Expected string literal"@,
        ShapeDefect::TooManyArguments => "Too many args"@,
        ShapeDefect::KeyNotLiteral => "Failed get param"@,
    }
}

/// The text between double quotes.
pub open spec fn quoted(k: Text) -> Text {
    seq!['"'] + k + seq!['"']
}

/// The texts, each between double quotes, with a comma and a space
/// between one and the next.
pub open spec fn quoted_list(m: Seq<Text>) -> Text
    decreases m.len(),
{
    if m.len() == 0 {
        Seq::empty()
    } else if m.len() == 1 {
        quoted(m[0])
    } else {
        quoted_list(m.drop_last()) + ", "@ + quoted(m.last())
    }
}

/// What is said of a query that is not resolved.
pub open spec fn failure_text(e: Failure) -> Text {
    match e {
        Failure::SourceNotRegistered => "langrustang::i18n is not used, please set the yaml path."@,
        Failure::MalformedQueryShape(d) => shape_text(d),
        Failure::UnknownKey(k) => "Unknown Key: "@ + k,
        Failure::MissingLanguageSelector => "Expected lang"@,
        Failure::SelectorNotApplicable => "Key is Not Localized"@,
        Failure::MissingLanguageKey { missing } => "Missing language key: ["@ + quoted_list(
            missing,
        ) + "]"@,
        Failure::MissingFallback => "Failed to get all key"@,
    }
}

impl KeyDefect {
    /// What is said of a key with the defect.
    pub fn message(&self) -> (r: String)
        ensures
            r@ == defect_text(*self),
    {
        match self {
            KeyDefect::Empty => "Failed to get char".to_owned(),
            KeyDefect::FirstCharacter => "The first character of the language key contains something other than ascii_alphabet.".to_owned(),
            KeyDefect::BodyCharacter => "Language keys cannot be anything other than ascii_alphabet or ascii_discrit.".to_owned(),
            KeyDefect::UpperCase => "The language key must be in all lowercase.".to_owned(),
            KeyDefect::TrailingUnderscore => "The last character of the language key cannot be an underscore.".to_owned(),
        }
    }
}

impl ValidationError {
    /// What is said of the refused dataset.
    pub fn message(&self) -> (r: String)
        ensures
            r@ == validation_text(self@),
    {
        match self {
            ValidationError::InvalidLanguageKey { key, reason } => reason.message(),
            ValidationError::DuplicateCanonicalKey { a, b } => "The same key exists in yaml.".to_owned(),
        }
    }
}

impl ShapeDefect {
    /// What is said of arguments with the defect.
    pub fn message(&self) -> (r: String)
        ensures
            r@ == shape_text(*self),
    {
        match self {
            ShapeDefect::NoArguments => "Expected string literal".to_owned(),
            ShapeDefect::TooManyArguments => "Too many args".to_owned(),
            ShapeDefect::KeyNotLiteral => "Failed get param".to_owned(),
        }
    }
}

/// The strings, each between double quotes, with a comma and a space
/// between one and the next.
pub fn join_quoted(m: &Vec<String>) -> (r: String)
    ensures
        r@ == quoted_list(texts(m@)),
{
    let ghost t = texts(m@);
    let mut out = String::new();
    let mut i: usize = 0;
    proof {
        reveal_strlit("\"");
        assert("\""@ =~= seq!['"']);
        assert(t.take(0) =~= Seq::<Text>::empty());
    }
    while i < m.len()
        invariant
            t == texts(m@),
            i <= m@.len(),
            "\""@ == seq!['"'],
            out@ == quoted_list(t.take(i as int)),
        decreases m@.len() - i,
    {
        let ghost before = out@;
        if i > 0 {
            out.append(", ");
        }
        out.append("\"");
        out.append(m[i].as_str());
        out.append("\"");
        proof {
            let now = t.take(i + 1);
            assert(now.drop_last() =~= t.take(i as int));
            assert(now.last() == m@[i as int]@);
            assert(out@ =~= quoted_list(now)) by {
                if i == 0 {
                    assert(before =~= Seq::<char>::empty());
                    assert(out@ =~= quoted(now[0]));
                } else {
                    assert(out@ =~= before + ", "@ + quoted(now.last()));
                }
            }
        }
        i += 1;
    }
    assert(t.take(m@.len() as int) =~= t);
    out
}

impl ResolutionError {
    /// What is said of the query that is not resolved.
    pub fn message(&self) -> (r: String)
        ensures
            r@ == failure_text(self@),
    {
        match self {
            ResolutionError::SourceNotRegistered => "langrustang::i18n is not used, please set the yaml path.".to_owned(),
            ResolutionError::MalformedQueryShape(d) => d.message(),
            ResolutionError::UnknownKey(k) => {
                let mut out = "Unknown Key: ".to_owned();
                out.append(k.as_str());
                out
            },
            ResolutionError::MissingLanguageSelector => "Expected lang".to_owned(),
            ResolutionError::SelectorNotApplicable => "Key is Not Localized".to_owned(),
            ResolutionError::MissingLanguageKey { missing } => {
                let mut out = "Missing language key: [".to_owned();
                let list = join_quoted(missing);
                out.append(list.as_str());
                out.append("]");
                out
            },
            ResolutionError::MissingFallback => "Failed to get all key".to_owned(),
        }
    }
}

/// What is said of a dataset that could not be registered.
pub open spec fn registration_text(e: RegistrationError) -> Text {
    match e {
        RegistrationError::ExpectedYamlPath => "expected .yaml file path"@,
        RegistrationError::FileNotFound => "File is not found"@,
        RegistrationError::FailedToOpen => "Failed to open file"@,
        RegistrationError::MalformedSource => "Failed to parse yaml"@,
        RegistrationError::Invalid(e) => validation_text(e@),
    }
}

impl RegistrationError {
    /// What is said of the dataset that could not be registered.
    pub fn message(&self) -> (r: String)
        ensures
            r@ == registration_text(*self),
    {
        match self {
            RegistrationError::ExpectedYamlPath => "expected .yaml file path".to_owned(),
            RegistrationError::FileNotFound => "File is not found".to_owned(),
            RegistrationError::FailedToOpen => "Failed to open file".to_owned(),
            RegistrationError::MalformedSource => "Failed to parse yaml".to_owned(),
            RegistrationError::Invalid(e) => e.message(),
        }
    }
}

} // verus!

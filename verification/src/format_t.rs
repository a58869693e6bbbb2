//! A call for a formatted text: the message key, the language where the
//! entry has texts by language, and the arguments of the format.

pub mod create_literal;

use vstd::prelude::*;
use crate::error::{Failure, ResolutionError, ShapeDefect};
use crate::format_t::create_literal::{allkey_only, not_allkey_only};
use crate::i18n::languages::Dataset;
use crate::i18n::BuildSession;
use crate::lang_yaml::{has_key, lemma_key_at, value_of, Text};
use crate::resolve::{
    all_only, exprs_from, is_all_only, literal_text, outcome, resolved, MacroArg,
    ResolutionResult, Resolved,
};

verus! {

/// The language of a call for a formatted text: none for an entry with
/// only the text for all languages, else the second argument, where there
/// is one.
pub open spec fn format_selector<E>(p: Seq<MacroArg<E>>, only_all: bool) -> Option<E> {
    if !only_all && p.len() >= 2 {
        Some(p[1].expr)
    } else {
        None
    }
}

/// The arguments that fill the format: all after the message key for an
/// entry with only the text for all languages, else all after the
/// language.
pub open spec fn format_args<E>(p: Seq<MacroArg<E>>, only_all: bool) -> Seq<E> {
    if only_all {
        exprs_from(p, 1)
    } else if p.len() >= 2 {
        exprs_from(p, 2)
    } else {
        Seq::empty()
    }
}

/// `r` is what a call for a formatted text with the arguments `p` comes
/// to. Without a registered dataset nothing is resolved. The call takes at
/// least one argument, the first a string literal that is a message key of
/// the dataset. The entry under it is then resolved as a format.
pub open spec fn format_t_parsed<E>(
    registered: bool,
    d: Dataset,
    langs: Seq<Text>,
    p: Seq<MacroArg<E>>,
    r: Result<Resolved<E>, Failure>,
) -> bool {
    if !registered {
        r == Err::<Resolved<E>, _>(Failure::SourceNotRegistered)
    } else if p.len() == 0 {
        r == Err::<Resolved<E>, _>(Failure::MalformedQueryShape(ShapeDefect::NoArguments))
    } else if literal_text(p[0]) is None {
        r == Err::<Resolved<E>, _>(Failure::MalformedQueryShape(ShapeDefect::KeyNotLiteral))
    } else if !has_key(d, literal_text(p[0])->0) {
        r == Err::<Resolved<E>, _>(Failure::UnknownKey(literal_text(p[0])->0))
    } else {
        let entry = value_of(d, literal_text(p[0])->0);
        resolved(
            entry,
            langs,
            format_selector(p, all_only(entry)),
            Some(format_args(p, all_only(entry))),
            r,
        )
    }
}

/// Resolves a call for a formatted text against the registered dataset.
pub fn format_t_parse<E>(session: &BuildSession, parsed: Vec<MacroArg<E>>) -> (r: Result<
    ResolutionResult<E>,
    ResolutionError,
>)
    requires
        session.wf(),
    ensures
        format_t_parsed(
            session.registered(),
            session.dataset(),
            session.languages(),
            parsed@,
            outcome(r),
        ),
{
    let data = match session.data() {
        Some(d) => d,
        None => {
            return Err(ResolutionError::SourceNotRegistered);
        },
    };
    if parsed.len() == 0 {
        return Err(ResolutionError::MalformedQueryShape(ShapeDefect::NoArguments));
    }
    let entry = match &parsed[0].literal {
        None => {
            return Err(ResolutionError::MalformedQueryShape(ShapeDefect::KeyNotLiteral));
        },
        Some(key) => match data.get(key.as_str()) {
            Some(e) => e,
            None => {
                return Err(ResolutionError::UnknownKey(key.clone()));
            },
        },
    };
    if is_all_only(entry) {
        proof {
            lemma_key_at(entry@, 0);
        }
        allkey_only(parsed, entry)
    } else {
        not_allkey_only(parsed, entry, session.langs())
    }
}

/// The verb by which a formatted text is rendered: made into a string,
/// printed, or printed as a line.
#[derive(Clone, Copy, Debug, PartialEq, Eq, Structural)]
pub enum Verb {
    Format,
    Print,
    Println,
}

/// The name of the verb in rendered code.
pub open spec fn verb_name(v: Verb) -> Text {
    match v {
        Verb::Format => "format"@,
        Verb::Print => "print"@,
        Verb::Println => "println"@,
    }
}

impl Verb {
    /// The name of the verb in rendered code.
    pub fn name(&self) -> (r: String)
        ensures
            r@ == verb_name(*self),
    {
        match self {
            Verb::Format => "format".to_owned(),
            Verb::Print => "print".to_owned(),
            Verb::Println => "println".to_owned(),
        }
    }
}

/// What a call for a formatted text resolved to, with the verb that
/// renders it.
#[derive(Debug, PartialEq, Eq)]
pub struct Rendering<E> {
    pub verb: Verb,
    pub result: ResolutionResult<E>,
}

/// The verb in place of `format`; any other verb stays.
pub open spec fn in_place_of_format(v: Verb, verb: Verb) -> Verb {
    if v == Verb::Format {
        verb
    } else {
        v
    }
}

/// Puts `verb` in place of the verb `format` of a rendering. Only the verb
/// is touched: the text, the selector, the arms and the arguments stay as
/// they are.
pub fn format_into<E>(rendering: Rendering<E>, verb: Verb) -> (r: Rendering<E>)
    ensures
        r.result == rendering.result,
        r.verb == in_place_of_format(rendering.verb, verb),
{
    match rendering.verb {
        Verb::Format => Rendering { verb, result: rendering.result },
        _ => rendering,
    }
}

/// Resolves a call for a formatted text; the result is rendered by
/// `format`.
pub fn _format_t<E>(session: &BuildSession, parsed: Vec<MacroArg<E>>) -> (r: Result<
    Rendering<E>,
    ResolutionError,
>)
    requires
        session.wf(),
    ensures
        r matches Ok(x) ==> x.verb == Verb::Format,
        format_t_parsed(
            session.registered(),
            session.dataset(),
            session.languages(),
            parsed@,
            rendered(r),
        ),
{
    match format_t_parse(session, parsed) {
        Ok(result) => Ok(Rendering { verb: Verb::Format, result }),
        Err(e) => Err(e),
    }
}

/// The result of a call for a formatted text as the contracts see it,
/// the verb left aside.
pub open spec fn rendered<E>(r: Result<Rendering<E>, ResolutionError>) -> Result<
    Resolved<E>,
    Failure,
> {
    match r {
        Ok(x) => Ok(x.result@),
        Err(e) => Err(e@),
    }
}

} // verus!

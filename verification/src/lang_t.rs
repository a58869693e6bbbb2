//! A call for a plain text: the message key, and the language where the
//! entry has texts by language.

pub mod create_literal;

use vstd::prelude::*;
use crate::error::{Failure, ResolutionError, ShapeDefect};
use crate::i18n::languages::Dataset;
use crate::i18n::BuildSession;
use crate::lang_t::create_literal::{literal_and_lang, literal_only};
use crate::lang_yaml::{has_key, lemma_key_at, value_of, Text};
use crate::resolve::{
    is_all_only, literal_text, outcome, resolved, MacroArg, ResolutionResult, Resolved,
};
use crate::text::{char_lower, char_upper, chars_of, lower, string_of, upper};

verus! {

/// The language of a call with one or two arguments: the second argument,
/// where there is one.
pub open spec fn selector_of<E>(p: Seq<MacroArg<E>>) -> Option<E> {
    if p.len() == 2 {
        Some(p[1].expr)
    } else {
        None
    }
}

/// `r` is what a call for a plain text with the arguments `p` comes to.
/// Without a registered dataset nothing is resolved. The call takes one or
/// two arguments, the first a string literal that is a message key of the
/// dataset. The entry under it is then resolved as a plain text, by the
/// second argument where there is one.
pub open spec fn lang_t_parsed<E>(
    registered: bool,
    d: Dataset,
    langs: Seq<Text>,
    p: Seq<MacroArg<E>>,
    r: Result<Resolved<E>, Failure>,
) -> bool {
    if !registered {
        r == Err::<Resolved<E>, _>(Failure::SourceNotRegistered)
    } else if p.len() == 0 {
        r == Err::<Resolved<E>, _>(Failure::MalformedQueryShape(ShapeDefect::NoArguments))
    } else if p.len() >= 3 {
        r == Err::<Resolved<E>, _>(Failure::MalformedQueryShape(ShapeDefect::TooManyArguments))
    } else if literal_text(p[0]) is None {
        r == Err::<Resolved<E>, _>(Failure::MalformedQueryShape(ShapeDefect::KeyNotLiteral))
    } else if !has_key(d, literal_text(p[0])->0) {
        r == Err::<Resolved<E>, _>(Failure::UnknownKey(literal_text(p[0])->0))
    } else {
        resolved(value_of(d, literal_text(p[0])->0), langs, selector_of(p), None, r)
    }
}

/// Resolves a call for a plain text against the registered dataset.
pub fn lang_t_parse<E>(session: &BuildSession, parsed: Vec<MacroArg<E>>) -> (r: Result<
    ResolutionResult<E>,
    ResolutionError,
>)
    requires
        session.wf(),
    ensures
        lang_t_parsed(
            session.registered(),
            session.dataset(),
            session.languages(),
            parsed@,
            outcome(r),
        ),
{
    let data = match session.data() {
        Some(d) => d,
        None => {
            return Err(ResolutionError::SourceNotRegistered);
        },
    };
    if parsed.len() == 0 {
        return Err(ResolutionError::MalformedQueryShape(ShapeDefect::NoArguments));
    }
    if parsed.len() >= 3 {
        return Err(ResolutionError::MalformedQueryShape(ShapeDefect::TooManyArguments));
    }
    let entry = match &parsed[0].literal {
        None => {
            return Err(ResolutionError::MalformedQueryShape(ShapeDefect::KeyNotLiteral));
        },
        Some(key) => match data.get(key.as_str()) {
            Some(e) => e,
            None => {
                return Err(ResolutionError::UnknownKey(key.clone()));
            },
        },
    };
    if is_all_only(entry) {
        proof {
            lemma_key_at(entry@, 0);
        }
        literal_only(parsed, entry)
    } else {
        literal_and_lang(parsed, entry, session.langs())
    }
}

/// The variant name in its plain form: the first character in upper
/// case, every other in lower case.
pub open spec fn enum_elem_format(s: Text) -> Text {
    Seq::new(
        s.len(),
        |i: int|
            if i == 0 {
                upper(s[i])
            } else {
                lower(s[i])
            },
    )
}

/// The plain variant name of `text`, which keeps underscores and takes no
/// note of them.
pub fn to_enum_elem_format(text: &str) -> (r: String)
    ensures
        r@ == enum_elem_format(text@),
{
    let s = chars_of(text);
    let mut out: Vec<char> = Vec::new();
    let mut i: usize = 0;
    while i < s.len()
        invariant
            i <= s.len(),
            out@.len() == i,
            forall|j: int| 0 <= j < i ==> out@[j] == enum_elem_format(s@)[j],
        decreases s.len() - i,
    {
        if i == 0 {
            out.push(char_upper(s[i]));
        } else {
            out.push(char_lower(s[i]));
        }
        i += 1;
    }
    assert(out@ =~= enum_elem_format(s@));
    string_of(&out)
}

} // verus!

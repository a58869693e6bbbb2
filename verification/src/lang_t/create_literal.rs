//! What a call for a plain text comes to, for an entry with only the text
//! for all languages and for one with texts by language.

use vstd::prelude::*;
use crate::error::{Failure, ResolutionError, ShapeDefect};
use crate::i18n::all_key;
use crate::i18n::languages::LanguageSet;
use crate::lang_yaml::{has_key, value_of, LocalizedText};
use crate::resolve::{
    all_text, dispatch, dispatched, outcome, split_exprs, MacroArg, ResolutionResult, Resolved,
};

verus! {

/// The text for all languages of an entry, for a call that names only the
/// message key. A call with two arguments gives a language where none is
/// taken.
pub fn literal_only<E>(parsed: Vec<MacroArg<E>>, localized_text: &LocalizedText) -> (r: Result<
    ResolutionResult<E>,
    ResolutionError,
>)
    requires
        localized_text.wf(),
    ensures
        outcome(r) == if parsed@.len() == 2 {
            Err::<Resolved<E>, _>(Failure::SelectorNotApplicable)
        } else if has_key(localized_text@, all_key()) {
            Ok(Resolved::Literal(value_of(localized_text@, all_key())))
        } else {
            Err(Failure::MissingFallback)
        },
{
    if parsed.len() == 2 {
        return Err(ResolutionError::SelectorNotApplicable);
    }
    match all_text(localized_text) {
        Ok(t) => Ok(ResolutionResult::Literal(t.clone())),
        Err(e) => Err(e),
    }
}

/// The choice by language over an entry, for a call that names the
/// message key and the language. A call without arguments or with more
/// than two is refused, and so is one that names no language.
pub fn literal_and_lang<E>(
    parsed: Vec<MacroArg<E>>,
    localized_text: &LocalizedText,
    yaml_langs: &LanguageSet,
) -> (r: Result<ResolutionResult<E>, ResolutionError>)
    requires
        localized_text.wf(),
        yaml_langs.wf(),
    ensures
        parsed@.len() == 0 ==> outcome(r) == Err::<Resolved<E>, _>(
            Failure::MalformedQueryShape(ShapeDefect::NoArguments),
        ),
        parsed@.len() >= 3 ==> outcome(r) == Err::<Resolved<E>, _>(
            Failure::MalformedQueryShape(ShapeDefect::TooManyArguments),
        ),
        parsed@.len() == 1 ==> outcome(r) == Err::<Resolved<E>, _>(
            Failure::MissingLanguageSelector,
        ),
        parsed@.len() == 2 ==> dispatched(
            localized_text@,
            yaml_langs@,
            parsed@[1].expr,
            None,
            outcome(r),
        ),
{
    if parsed.len() == 0 {
        return Err(ResolutionError::MalformedQueryShape(ShapeDefect::NoArguments));
    }
    if parsed.len() >= 3 {
        return Err(ResolutionError::MalformedQueryShape(ShapeDefect::TooManyArguments));
    }
    if parsed.len() == 1 {
        return Err(ResolutionError::MissingLanguageSelector);
    }
    let (_, mut rest) = split_exprs(parsed, 1);
    let selector = rest.pop().unwrap();
    dispatch(localized_text, yaml_langs, selector, None)
}

} // verus!

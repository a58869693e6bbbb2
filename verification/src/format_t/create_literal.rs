//! What a call for a formatted text comes to, for an entry with only the
//! text for all languages and for one with texts by language.

use vstd::prelude::*;
use crate::error::{Failure, ResolutionError, ShapeDefect};
use crate::i18n::all_key;
use crate::i18n::languages::LanguageSet;
use crate::lang_yaml::{has_key, value_of, LocalizedText};
use crate::resolve::{
    all_text, dispatch, dispatched, exprs_from, outcome, split_exprs, MacroArg, ResolutionResult,
    Resolved,
};

verus! {

/// The text for all languages as a format, filled by every argument after
/// the message key.
pub fn allkey_only<E>(parsed: Vec<MacroArg<E>>, localized_text: &LocalizedText) -> (r: Result<
    ResolutionResult<E>,
    ResolutionError,
>)
    requires
        localized_text.wf(),
    ensures
        outcome(r) == if !has_key(localized_text@, all_key()) {
            Err::<Resolved<E>, _>(Failure::MissingFallback)
        } else if parsed@.len() == 0 {
            Err(Failure::MalformedQueryShape(ShapeDefect::NoArguments))
        } else {
            Ok(
                Resolved::FormattedLiteral(
                    value_of(localized_text@, all_key()),
                    exprs_from(parsed@, 1),
                ),
            )
        },
{
    let value = match all_text(localized_text) {
        Ok(t) => t,
        Err(e) => {
            return Err(e);
        },
    };
    if parsed.len() == 0 {
        return Err(ResolutionError::MalformedQueryShape(ShapeDefect::NoArguments));
    }
    let (_, args) = split_exprs(parsed, 1);
    Ok(ResolutionResult::FormattedLiteral(value.clone(), args))
}

/// The choice by language over an entry, each text a format: the second
/// argument chooses the language, those after it fill the format. A call
/// that names no language is refused.
pub fn not_allkey_only<E>(
    parsed: Vec<MacroArg<E>>,
    localized_text: &LocalizedText,
    yaml_langs: &LanguageSet,
) -> (r: Result<ResolutionResult<E>, ResolutionError>)
    requires
        localized_text.wf(),
        yaml_langs.wf(),
    ensures
        parsed@.len() == 0 ==> outcome(r) == Err::<Resolved<E>, _>(
            Failure::MalformedQueryShape(ShapeDefect::NoArguments),
        ),
        parsed@.len() == 1 ==> outcome(r) == Err::<Resolved<E>, _>(
            Failure::MissingLanguageSelector,
        ),
        parsed@.len() >= 2 ==> dispatched(
            localized_text@,
            yaml_langs@,
            parsed@[1].expr,
            Some(exprs_from(parsed@, 2)),
            outcome(r),
        ),
{
    if parsed.len() == 0 {
        return Err(ResolutionError::MalformedQueryShape(ShapeDefect::NoArguments));
    }
    if parsed.len() == 1 {
        return Err(ResolutionError::MissingLanguageSelector);
    }
    let ghost all = parsed@;
    let (mut head, args) = split_exprs(parsed, 2);
    let selector = head.pop().unwrap().expr;
    assert(selector == all[1].expr);
    dispatch(localized_text, yaml_langs, selector, Some(args))
}

} // verus!

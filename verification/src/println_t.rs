//! A formatted text that is printed as a line.

use vstd::prelude::*;
use crate::error::ResolutionError;
use crate::format_t::{
    _format_t, format_into, format_t_parsed, in_place_of_format, rendered, Rendering, Verb,
};
use crate::i18n::BuildSession;
use crate::resolve::MacroArg;

verus! {

/// Turns a rendering that formats into one that prints a line. Only the
/// verb is touched.
pub fn format_into_println<E>(rendering: Rendering<E>) -> (r: Rendering<E>)
    ensures
        r.result == rendering.result,
        r.verb == in_place_of_format(rendering.verb, Verb::Println),
{
    format_into(rendering, Verb::Println)
}

/// Resolves a call for a formatted text as `format_t` does; the result is
/// rendered by `println`.
pub fn _println_t<E>(session: &BuildSession, parsed: Vec<MacroArg<E>>) -> (r: Result<
    Rendering<E>,
    ResolutionError,
>)
    requires
        session.wf(),
    ensures
        r matches Ok(x) ==> x.verb == Verb::Println,
        format_t_parsed(
            session.registered(),
            session.dataset(),
            session.languages(),
            parsed@,
            rendered(r),
        ),
{
    match _format_t(session, parsed) {
        Ok(rendering) => Ok(format_into_println(rendering)),
        Err(e) => Err(e),
    }
}

} // verus!

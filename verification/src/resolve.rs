//! Resolving a query: a message key, a language selector where the entry
//! needs one, and the arguments of a format where the text is one.

use vstd::prelude::*;
use crate::dispatch::{arm_views, build, complete, dispatch_arms, missing_listing, DispatchArm, Entry};
use crate::error::{Failure, ResolutionError};
use crate::i18n::languages::LanguageSet;
use crate::i18n::{all_key, is_all, BuildSession};
use crate::lang_yaml::{has_key, lemma_key_at, value_of, LocalizedText, Text};

verus! {

/// One argument of a call: the expression as the caller wrote it, and the
/// text it stands for where it is a string literal.
#[derive(Debug, PartialEq, Eq)]
pub struct MacroArg<E> {
    pub literal: Option<String>,
    pub expr: E,
}

/// The text of an argument that is a string literal.
pub open spec fn literal_text<E>(a: MacroArg<E>) -> Option<Text> {
    match a.literal {
        Some(s) => Some(s@),
        None => None,
    }
}

/// The expressions of the arguments from place `from` on.
pub open spec fn exprs_from<E>(p: Seq<MacroArg<E>>, from: int) -> Seq<E> {
    Seq::new((p.len() - from) as nat, |i: int| p[from + i].expr)
}

/// What a query resolves to.
#[derive(Debug, PartialEq, Eq)]
pub enum ResolutionResult<E> {
    /// The text itself.
    Literal(String),
    /// The text as a format, with the arguments to fill it.
    FormattedLiteral(String, Vec<E>),
    /// A choice by language: the selector, and an arm for each language.
    /// With `args` the text of each arm is a format that they fill.
    Dispatch { selector: E, arms: Vec<DispatchArm>, args: Option<Vec<E>> },
}

/// A `ResolutionResult` as the contracts see it.
pub enum Resolved<E> {
    Literal(Text),
    FormattedLiteral(Text, Seq<E>),
    Dispatch { selector: E, arms: Seq<(Text, Text)>, args: Option<Seq<E>> },
}

/// The arguments of a format as the contracts see them.
pub open spec fn args_view<E>(args: Option<Vec<E>>) -> Option<Seq<E>> {
    match args {
        Some(a) => Some(a@),
        None => None,
    }
}

impl<E> View for ResolutionResult<E> {
    type V = Resolved<E>;

    open spec fn view(&self) -> Resolved<E> {
        match self {
            ResolutionResult::Literal(t) => Resolved::Literal(t@),
            ResolutionResult::FormattedLiteral(t, a) => Resolved::FormattedLiteral(t@, a@),
            ResolutionResult::Dispatch { selector, arms, args } => Resolved::Dispatch {
                selector: *selector,
                arms: arm_views(arms@),
                args: args_view(*args),
            },
        }
    }
}

/// The result of a resolution as the contracts see it.
pub open spec fn outcome<E>(r: Result<ResolutionResult<E>, ResolutionError>) -> Result<
    Resolved<E>,
    Failure,
> {
    match r {
        Ok(x) => Ok(x@),
        Err(e) => Err(e@),
    }
}

/// The entry has exactly one language key, and it is `all`.
pub open spec fn all_only(entry: Entry) -> bool {
    entry.len() == 1 && entry[0].0 == all_key()
}

/// The text as a result: itself, or as a format with its arguments.
pub open spec fn literal_of<E>(text: Text, args: Option<Seq<E>>) -> Resolved<E> {
    match args {
        Some(a) => Resolved::FormattedLiteral(text, a),
        None => Resolved::Literal(text),
    }
}

/// `r` is what a choice by language over the entry comes to: the dispatch
/// table where the entry has a text for every language, the list of the
/// languages it lacks where it has not.
pub open spec fn dispatched<E>(
    entry: Entry,
    langs: Seq<Text>,
    selector: E,
    args: Option<Seq<E>>,
    r: Result<Resolved<E>, Failure>,
) -> bool {
    if complete(entry, langs) {
        r == Ok::<_, Failure>(
            Resolved::Dispatch { selector, arms: dispatch_arms(entry, langs), args },
        )
    } else {
        r matches Err(Failure::MissingLanguageKey { missing }) && missing_listing(
            entry,
            langs,
            missing,
        )
    }
}

/// `r` is what the entry resolves to. An entry with only the text for all
/// languages gives that text and takes no selector; any other entry needs
/// a selector and gives a choice by language.
pub open spec fn resolved<E>(
    entry: Entry,
    langs: Seq<Text>,
    selector: Option<E>,
    args: Option<Seq<E>>,
    r: Result<Resolved<E>, Failure>,
) -> bool {
    if all_only(entry) {
        match selector {
            None => r == Ok::<_, Failure>(literal_of(value_of(entry, all_key()), args)),
            Some(_) => r == Err::<Resolved<E>, _>(Failure::SelectorNotApplicable),
        }
    } else {
        match selector {
            None => r == Err::<Resolved<E>, _>(Failure::MissingLanguageSelector),
            Some(s) => dispatched(entry, langs, s, args, r),
        }
    }
}

/// Whether the entry has exactly one language key, and it is `all`.
pub fn is_all_only(entry: &LocalizedText) -> (r: bool)
    ensures
        r == all_only(entry@),
{
    entry.len() == 1 && is_all(entry.key_at(0).as_str())
}

/// The text of the entry for all languages.
pub fn all_text(entry: &LocalizedText) -> (r: Result<&String, ResolutionError>)
    requires
        entry.wf(),
    ensures
        match r {
            Ok(t) => has_key(entry@, all_key()) && t@ == value_of(entry@, all_key()),
            Err(e) => !has_key(entry@, all_key()) && e@ == Failure::MissingFallback,
        },
{
    proof {
        reveal_strlit("all");
        assert("all"@ =~= all_key());
    }
    match entry.get("all") {
        Some(t) => Ok(t),
        None => Err(ResolutionError::MissingFallback),
    }
}

/// Takes the arguments apart: those before place `from` stay arguments,
/// of the others the expressions are handed out in their order.
pub fn split_exprs<E>(parsed: Vec<MacroArg<E>>, from: usize) -> (r: (Vec<MacroArg<E>>, Vec<E>))
    requires
        from <= parsed@.len(),
    ensures
        r.0@ == parsed@.take(from as int),
        r.1@ == exprs_from(parsed@, from as int),
{
    let ghost all = parsed@;
    let mut head = parsed;
    let mut tail: Vec<E> = Vec::new();
    while head.len() > from
        invariant
            from <= head@.len() <= all.len(),
            head@ == all.take(head@.len() as int),
            tail@.len() == all.len() - head@.len(),
            forall|j: int| 0 <= j < tail@.len() ==> tail@[j] == all[all.len() - 1 - j].expr,
        decreases head@.len(),
    {
        let a = head.pop().unwrap();
        tail.push(a.expr);
    }
    let ghost turned = tail@;
    let mut out: Vec<E> = Vec::new();
    while tail.len() > 0
        invariant
            tail@.len() <= turned.len(),
            tail@ == turned.take(tail@.len() as int),
            out@.len() == turned.len() - tail@.len(),
            forall|j: int| 0 <= j < out@.len() ==> out@[j] == turned[turned.len() - 1 - j],
        decreases tail@.len(),
    {
        let e = tail.pop().unwrap();
        out.push(e);
    }
    assert(out@ =~= exprs_from(all, from as int));
    (head, out)
}

/// Builds the choice by language over `entry`, with `selector` to choose
/// by and, for texts that are formats, the arguments that fill them.
pub fn dispatch<E>(
    entry: &LocalizedText,
    langs: &LanguageSet,
    selector: E,
    args: Option<Vec<E>>,
) -> (r: Result<ResolutionResult<E>, ResolutionError>)
    requires
        entry.wf(),
        langs.wf(),
    ensures
        dispatched(entry@, langs@, selector, args_view(args), outcome(r)),
{
    match build(entry, langs) {
        Ok(arms) => Ok(ResolutionResult::Dispatch { selector, arms, args }),
        Err(e) => Err(e),
    }
}

/// Resolves the query for `key`: by `selector` where one is given, and
/// with `args` where the text is a format.
pub fn resolve<E>(session: &BuildSession, key: &str, selector: Option<E>, args: Option<Vec<E>>) -> (r:
    Result<ResolutionResult<E>, ResolutionError>)
    requires
        session.wf(),
    ensures
        !session.registered() ==> outcome(r) == Err::<Resolved<E>, _>(Failure::SourceNotRegistered),
        session.registered() && !has_key(session.dataset(), key@) ==> outcome(r) == Err::<
            Resolved<E>,
            _,
        >(Failure::UnknownKey(key@)),
        session.registered() && has_key(session.dataset(), key@) ==> resolved(
            value_of(session.dataset(), key@),
            session.languages(),
            selector,
            args_view(args),
            outcome(r),
        ),
{
    let data = match session.data() {
        Some(d) => d,
        None => {
            return Err(ResolutionError::SourceNotRegistered);
        },
    };
    let entry = match data.get(key) {
        Some(e) => e,
        None => {
            return Err(ResolutionError::UnknownKey(key.to_owned()));
        },
    };
    if is_all_only(entry) {
        match selector {
            Some(_) => Err(ResolutionError::SelectorNotApplicable),
            None => {
                proof {
                    lemma_key_at(entry@, 0);
                }
                match all_text(entry) {
                    Ok(t) => match args {
                        Some(a) => Ok(ResolutionResult::FormattedLiteral(t.clone(), a)),
                        None => Ok(ResolutionResult::Literal(t.clone())),
                    },
                    Err(e) => Err(e),
                }
            },
        }
    } else {
        match selector {
            Some(s) => dispatch(entry, session.langs(), s, args),
            None => Err(ResolutionError::MissingLanguageSelector),
        }
    }
}

/// An entry with only the text for all languages resolves, without a
/// selector, to that text as it stands in the entry; with a selector it is
/// refused, whatever the selector is.
pub proof fn lemma_all_only_entry<E>(
    entry: Entry,
    langs: Seq<Text>,
    selector: Option<E>,
    args: Option<Seq<E>>,
    r: Result<Resolved<E>, Failure>,
)
    requires
        all_only(entry),
        resolved(entry, langs, selector, args, r),
    ensures
        selector is None ==> r == Ok::<_, Failure>(literal_of(entry[0].1, args)),
        selector is None && args is None ==> r == Ok::<Resolved<E>, Failure>(
            Resolved::Literal(entry[0].1),
        ),
        selector is Some ==> r == Err::<Resolved<E>, _>(Failure::SelectorNotApplicable),
{
    lemma_key_at(entry, 0);
}

} // verus!

//! The rules a language key has to meet, and the name under which a
//! language appears in generated code.

use vstd::prelude::*;
use crate::error::ValidationError;
use crate::i18n::all_key;
use crate::i18n::languages::{collect_languages, describes, first_violation, valid_dataset};
use crate::lang_yaml::{LangYaml, Text};
use crate::text::{
    char_is_digit, char_is_lower, char_is_upper, char_lower, char_upper, chars_of, is_digit,
    is_lower, is_upper, lower, string_of, upper,
};

verus! {

/// What is wrong with a language key.
#[derive(Clone, Copy, Debug, PartialEq, Eq, Structural)]
pub enum KeyDefect {
    /// The key has no characters.
    Empty,
    /// The first character is no ASCII letter.
    FirstCharacter,
    /// A later character is no ASCII letter, digit or underscore.
    BodyCharacter,
    /// The key holds an upper-case letter.
    UpperCase,
    /// The key ends in an underscore.
    TrailingUnderscore,
}

/// The key starts with one of `a` to `z`.
pub open spec fn first_ok(k: Text) -> bool {
    k.len() > 0 && is_lower(k[0])
}

/// Every character after the first is one of `a` to `z`, a digit or an
/// underscore.
pub open spec fn body_ok(k: Text) -> bool {
    forall|i: int| 1 <= i < k.len() ==> is_lower(#[trigger] k[i]) || is_digit(k[i]) || k[i] == '_'
}

/// The key does not end in an underscore.
pub open spec fn tail_ok(k: Text) -> bool {
    k.len() > 0 ==> k[k.len() - 1] != '_'
}

/// The key meets the three rules.
pub open spec fn key_valid(k: Text) -> bool {
    first_ok(k) && body_ok(k) && tail_ok(k)
}

/// A later character that cannot stand in a key in either case.
pub open spec fn has_foreign_character(k: Text) -> bool {
    exists|i: int|
        1 <= i < k.len() && !(is_lower(#[trigger] k[i]) || is_upper(k[i]) || is_digit(k[i]) || k[i]
            == '_')
}

/// An upper-case letter anywhere in the key.
pub open spec fn has_upper_case(k: Text) -> bool {
    exists|i: int| 0 <= i < k.len() && is_upper(#[trigger] k[i])
}

/// The first thing found wrong with the key, looking for an empty key, a
/// first character that is no letter, a foreign character, an upper-case
/// letter and an underscore at the end, in that order; `None` for a key
/// with nothing wrong.
pub open spec fn key_defect(k: Text) -> Option<KeyDefect> {
    if k.len() == 0 {
        Some(KeyDefect::Empty)
    } else if !(is_lower(k[0]) || is_upper(k[0])) {
        Some(KeyDefect::FirstCharacter)
    } else if has_foreign_character(k) {
        Some(KeyDefect::BodyCharacter)
    } else if has_upper_case(k) {
        Some(KeyDefect::UpperCase)
    } else if k[k.len() - 1] == '_' {
        Some(KeyDefect::TrailingUnderscore)
    } else {
        None
    }
}

/// A key has no defect exactly when it meets the three rules.
pub proof fn lemma_defect_free_is_valid(k: Text)
    ensures
        key_defect(k) is None <==> key_valid(k),
{
    if key_valid(k) {
        if has_foreign_character(k) {
            let i = choose|i: int|
                1 <= i < k.len() && !(is_lower(#[trigger] k[i]) || is_upper(k[i]) || is_digit(k[i])
                    || k[i] == '_');
            assert(is_lower(k[i]) || is_digit(k[i]) || k[i] == '_');
        }
        if has_upper_case(k) {
            let i = choose|i: int| 0 <= i < k.len() && is_upper(#[trigger] k[i]);
            if i > 0 {
                assert(is_lower(k[i]) || is_digit(k[i]) || k[i] == '_');
            }
        }
    }
    if key_defect(k) is None {
        assert(!is_upper(k[0]));
        assert forall|i: int| 1 <= i < k.len() implies is_lower(#[trigger] k[i]) || is_digit(k[i])
            || k[i] == '_' by {
            assert(!is_upper(k[i]));
        }
    }
}

/// Finds what is wrong with a language key, if anything.
pub fn check_key(key: &str) -> (r: Option<KeyDefect>)
    ensures
        r == key_defect(key@),
{
    let k = chars_of(key);
    if k.len() == 0 {
        return Some(KeyDefect::Empty);
    }
    if !(char_is_lower(k[0]) || char_is_upper(k[0])) {
        return Some(KeyDefect::FirstCharacter);
    }
    let mut i: usize = 1;
    while i < k.len()
        invariant
            k@ == key@,
            is_lower(k@[0]) || is_upper(k@[0]),
            1 <= i <= k.len(),
            forall|j: int|
                1 <= j < i ==> is_lower(#[trigger] k@[j]) || is_upper(k@[j]) || is_digit(k@[j])
                    || k@[j] == '_',
        decreases k.len() - i,
    {
        let c = k[i];
        if !(char_is_lower(c) || char_is_upper(c) || char_is_digit(c) || c == '_') {
            assert(has_foreign_character(k@));
            return Some(KeyDefect::BodyCharacter);
        }
        i += 1;
    }
    let mut i: usize = 0;
    while i < k.len()
        invariant
            k@ == key@,
            0 < k.len(),
            is_lower(k@[0]) || is_upper(k@[0]),
            i <= k.len(),
            !has_foreign_character(k@),
            forall|j: int| 0 <= j < i ==> !is_upper(#[trigger] k@[j]),
        decreases k.len() - i,
    {
        if char_is_upper(k[i]) {
            assert(has_upper_case(k@));
            return Some(KeyDefect::UpperCase);
        }
        i += 1;
    }
    if k[k.len() - 1] == '_' {
        return Some(KeyDefect::TrailingUnderscore);
    }
    None
}

/// Whether the character at place `i` is taken over into the name: the
/// first always, a later one unless it is an underscore.
pub open spec fn kept_at(s: Text, i: int) -> bool {
    i == 0 || s[i] != '_'
}

/// The character at place `i` as the name holds it: in upper case at the
/// start and after an underscore that is not itself the start, in lower
/// case elsewhere.
pub open spec fn cased_at(s: Text, i: int) -> char {
    if i == 0 || (i >= 2 && s[i - 1] == '_') {
        upper(s[i])
    } else {
        lower(s[i])
    }
}

/// The name made of the first `n` characters of `s`.
pub open spec fn enumval_prefix(s: Text, n: int) -> Text
    decreases n,
{
    if n <= 0 {
        Seq::<char>::empty()
    } else if kept_at(s, n - 1) {
        enumval_prefix(s, n - 1).push(cased_at(s, n - 1))
    } else {
        enumval_prefix(s, n - 1)
    }
}

/// The variant name of a language key: the underscores after the first
/// character are left out, the first character and each one that follows
/// such an underscore stand in upper case, the others in lower case.
pub open spec fn enumval_format(s: Text) -> Text {
    enumval_prefix(s, s.len() as int)
}

/// The name made of the first `n` characters has at most `n` characters,
/// and at least one where `n` is not zero.
proof fn lemma_prefix_len(s: Text, n: int)
    requires
        0 <= n <= s.len(),
    ensures
        enumval_prefix(s, n).len() <= n,
        n >= 1 ==> enumval_prefix(s, n).len() >= 1,
    decreases n,
{
    if n > 0 {
        lemma_prefix_len(s, n - 1);
    }
}

/// A key without underscores after its first character has as its variant
/// name its own characters, the first in upper case, where the others are
/// lower-case letters and digits.
proof fn lemma_plain_prefix(s: Text, n: int)
    requires
        0 <= n <= s.len(),
        forall|i: int| 1 <= i < s.len() ==> is_lower(#[trigger] s[i]) || is_digit(s[i]),
    ensures
        enumval_prefix(s, n).len() == n,
        forall|i: int|
            0 <= i < n ==> #[trigger] enumval_prefix(s, n)[i] == (if i == 0 {
                upper(s[0])
            } else {
                s[i]
            }),
    decreases n,
{
    if n > 0 {
        lemma_plain_prefix(s, n - 1);
        if n - 1 >= 1 {
            assert(is_lower(s[n - 1]) || is_digit(s[n - 1]));
            if n - 1 >= 2 {
                assert(is_lower(s[n - 2]) || is_digit(s[n - 2]));
            }
        }
    }
}

/// Where every character of the name after the first is a lower-case
/// letter, no character of the key follows an underscore.
proof fn lemma_no_capital_no_turn(s: Text, n: int)
    requires
        0 <= n <= s.len(),
        body_ok(s),
        forall|j: int| 1 <= j < enumval_prefix(s, n).len() ==> is_lower(enumval_prefix(s, n)[j]),
    ensures
        forall|i: int| 2 <= i < n ==> !(s[i - 1] == '_' && #[trigger] s[i] != '_'),
    decreases n,
{
    if n > 2 {
        let p = enumval_prefix(s, n - 1);
        lemma_prefix_len(s, n - 1);
        assert forall|j: int| 1 <= j < p.len() implies is_lower(p[j]) by {
            assert(enumval_prefix(s, n)[j] == p[j]);
        }
        lemma_no_capital_no_turn(s, n - 1);
        if s[n - 2] == '_' && s[n - 1] != '_' {
            assert(is_lower(s[n - 1]) || is_digit(s[n - 1]));
            assert(enumval_prefix(s, n)[p.len() as int] == upper(s[n - 1]));
            assert(is_lower(enumval_prefix(s, n)[p.len() as int]));
        }
    }
}

/// Where no character follows an underscore, an underscore is followed by
/// underscores to the end of the key.
proof fn lemma_underscores_run_on(s: Text, u: int)
    requires
        1 <= u < s.len(),
        s[u] == '_',
        forall|i: int| 2 <= i < s.len() ==> !(s[i - 1] == '_' && #[trigger] s[i] != '_'),
    ensures
        s[s.len() - 1] == '_',
    decreases s.len() - u,
{
    if u < s.len() - 1 {
        assert(!(s[u] == '_' && s[u + 1] != '_'));
        lemma_underscores_run_on(s, u + 1);
    }
}

/// The variant name of `all` belongs to no other key that meets the
/// rules.
pub proof fn lemma_name_of_all(k: Text)
    requires
        key_valid(k),
        enumval_format(k) == enumval_format(all_key()),
    ensures
        k == all_key(),
{
    let a = all_key();
    lemma_plain_prefix(a, 3);
    let name = enumval_format(a);
    assert(name.len() == 3);
    assert(name[0] == 'A' && name[1] == 'l' && name[2] == 'l');
    let n = k.len() as int;
    assert forall|j: int| 1 <= j < enumval_prefix(k, n).len() implies is_lower(
        enumval_prefix(k, n)[j],
    ) by {
        assert(j == 1 || j == 2);
    }
    lemma_no_capital_no_turn(k, n);
    assert forall|i: int| 1 <= i < k.len() implies is_lower(#[trigger] k[i]) || is_digit(
        k[i],
    ) by {
        if k[i] == '_' {
            lemma_underscores_run_on(k, i);
        }
    }
    lemma_plain_prefix(k, n);
    assert(n == 3);
    assert(enumval_prefix(k, n)[0] == upper(k[0]));
    assert(enumval_prefix(k, n)[1] == k[1]);
    assert(enumval_prefix(k, n)[2] == k[2]);
    assert(k[0] == 'a');
    assert(k =~= a);
}

/// The name can stand as a variant of an enum: an upper-case letter, then
/// letters and digits.
pub open spec fn is_identifier(name: Text) -> bool {
    &&& name.len() > 0
    &&& is_upper(name[0])
    &&& forall|i: int|
        1 <= i < name.len() ==> is_lower(#[trigger] name[i]) || is_upper(name[i]) || is_digit(
            name[i],
        )
}

/// The name made of the first characters of a key that meets the rules
/// can stand as a variant of an enum.
proof fn lemma_prefix_is_identifier(k: Text, n: int)
    requires
        key_valid(k),
        1 <= n <= k.len(),
    ensures
        is_identifier(enumval_prefix(k, n)),
    decreases n,
{
    if n > 1 {
        lemma_prefix_is_identifier(k, n - 1);
        assert(is_lower(k[n - 1]) || is_digit(k[n - 1]) || k[n - 1] == '_');
    } else {
        assert(enumval_prefix(k, 0) =~= Seq::<char>::empty());
        assert(enumval_prefix(k, 1) =~= seq![upper(k[0])]);
    }
}

/// The variant name of a key that meets the rules can stand as a variant
/// of an enum.
pub proof fn lemma_variant_is_identifier(k: Text)
    requires
        key_valid(k),
    ensures
        is_identifier(enumval_format(k)),
{
    lemma_prefix_is_identifier(k, k.len() as int);
}

/// The variant name under which the language key `text` appears in
/// generated code.
pub fn to_enumval_format(text: &str) -> (r: String)
    ensures
        r@ == enumval_format(text@),
{
    let s = chars_of(text);
    let mut out: Vec<char> = Vec::new();
    let mut i: usize = 0;
    while i < s.len()
        invariant
            i <= s.len(),
            out@ == enumval_prefix(s@, i as int),
        decreases s.len() - i,
    {
        let c = s[i];
        if i == 0 {
            out.push(char_upper(c));
        } else if c != '_' {
            if i >= 2 && s[i - 1] == '_' {
                out.push(char_upper(c));
            } else {
                out.push(char_lower(c));
            }
        }
        i += 1;
    }
    string_of(&out)
}

/// Checks every language key of the dataset, walking it entry by entry.
/// The dataset passes when no key breaks a rule and no two different keys
/// have the same variant name; otherwise the first key found at fault
/// decides the error.
pub fn check_yaml(yaml: &LangYaml) -> (r: Result<(), ValidationError>)
    requires
        yaml.wf(),
    ensures
        match r {
            Ok(()) => valid_dataset(yaml@),
            Err(e) => exists|m: int, n: int|
                #[trigger] first_violation(yaml@, m, n) && describes(e@, yaml@, m, n),
        },
{
    match collect_languages(yaml) {
        Ok(_) => Ok(()),
        Err(e) => Err(e),
    }
}

} // verus!

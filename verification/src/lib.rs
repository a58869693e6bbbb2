//! Build-time localization. A dataset maps message keys to texts by
//! language key; the key `all` holds a text for every language that an
//! entry does not name.
//!
//! A dataset is registered in a [`i18n::BuildSession`]: its language keys
//! are checked ([`i18n::check_yaml`]) and gathered into the set of
//! languages ([`i18n::languages::LanguageSet`]), each with the variant name
//! under which it appears in generated code. A call site is then resolved
//! against the session ([`lang_t`], [`format_t`], [`print_t`],
//! [`println_t`], [`resolve`]) to a literal, a formatted literal, or a
//! table with one arm for each language ([`dispatch`]).
//!
//! The library holds no files and no tokens: it is handed the dataset as
//! it was read, and the arguments of a call with the text of each string
//! literal among them.

pub mod dispatch;
pub mod error;
pub mod format_t;
pub mod i18n;
pub mod lang_t;
pub mod lang_yaml;
pub mod print_t;
pub mod println_t;
pub mod resolve;
pub mod text;

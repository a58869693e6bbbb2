//! Keeping the registered dataset in step with its file.

use vstd::prelude::*;
use crate::error::RegistrationError;
use crate::i18n::languages::{
    collect_languages, describes, first_violation, gathered, valid_dataset,
};
use crate::i18n::{BuildSession, SourceLoad};

verus! {

/// Whether a file last changed at `modified` is newer than what the
/// session holds of it: it is, unless the session read the file at that
/// very time.
pub open spec fn stale(last: Option<u128>, modified: u128) -> bool {
    last != Some(modified)
}

impl BuildSession {
    /// Whether the dataset file, last changed at `modified`, has to be
    /// read again.
    pub fn is_stale(&self, modified: u128) -> (r: bool)
        ensures
            r == stale(self.last_modified(), modified),
    {
        match self.modified {
            Some(m) => m != modified,
            None => true,
        }
    }
}

/// Brings the session up to date with the dataset file, last changed
/// at `modified`, where `load` is what reading it again gave. Nothing
/// happens, and `false` comes back, where the session read the file at
/// that time already. A file that is gone or cannot be read is an
/// error. Where no dataset is registered only the time is noted. Where
/// one is, the file has to hold a dataset that passes the check; it
/// then takes the place of the registered one. After an error the
/// session is as it was.
pub fn if_update_reload_yaml(session: &mut BuildSession, modified: u128, load: SourceLoad) -> (r:
    Result<bool, RegistrationError>)
    requires
        old(session).wf(),
        load matches SourceLoad::Parsed(y) ==> y.wf(),
    ensures
        final(session).wf(),
        r is Err ==> *final(session) == *old(session),
        final(session).source_path() == old(session).source_path(),
        final(session).registered() == old(session).registered(),
        r matches Ok(b) ==> b == stale(old(session).last_modified(), modified)
            && final(session).last_modified() == Some(modified),
        !stale(old(session).last_modified(), modified) ==> r is Ok && *final(session) == *old(session),
        stale(old(session).last_modified(), modified) ==> match load {
            SourceLoad::Missing => r == Err::<bool, _>(RegistrationError::FileNotFound),
            SourceLoad::Unreadable => r == Err::<bool, _>(RegistrationError::FailedToOpen),
            SourceLoad::Malformed => if old(session).registered() {
                r == Err::<bool, _>(RegistrationError::MalformedSource)
            } else {
                r is Ok && final(session).languages() == old(session).languages()
            },
            SourceLoad::Parsed(y) => if old(session).registered() {
                match r {
                    Ok(_) => {
                        &&& valid_dataset(y@)
                        &&& final(session).dataset() == y@
                        &&& gathered(y@, final(session).languages())
                    },
                    Err(RegistrationError::Invalid(e)) => exists|m: int, n: int|
                        #[trigger] first_violation(y@, m, n) && describes(e@, y@, m, n),
                    Err(_) => false,
                }
            } else {
                r is Ok && final(session).languages() == old(session).languages()
            },
        },
{
    if !session.is_stale(modified) {
        return Ok(false);
    }
    match load {
        SourceLoad::Missing => {
            return Err(RegistrationError::FileNotFound);
        },
        SourceLoad::Unreadable => {
            return Err(RegistrationError::FailedToOpen);
        },
        SourceLoad::Malformed => {
            if session.data.is_some() {
                return Err(RegistrationError::MalformedSource);
            }
        },
        SourceLoad::Parsed(yaml) => {
            if session.data.is_some() {
                match collect_languages(&yaml) {
                    Ok(set) => {
                        session.data = Some(yaml);
                        session.langs = set;
                    },
                    Err(e) => {
                        return Err(RegistrationError::Invalid(e));
                    },
                }
            }
        },
    }
    session.modified = Some(modified);
    Ok(true)
}

} // verus!

//! Validation of supplied record fields, ahead of any write.

use vstd::prelude::*;

use crate::entities::{Entry, EntryData};
use crate::error::ParameterError;

verus! {

/// Whether a string is a syntactically valid email address.
pub uninterp spec fn email_ok(s: Seq<char>) -> bool;

/// Relies on `fast_chemail::is_valid_email`: syntactic validation whose
/// result depends on the characters of the address alone.
#[verifier::external_body]
fn is_valid_email(s: &str) -> (r: bool)
    ensures
        r == email_ok(s@),
{
    fast_chemail::is_valid_email(s)
}

/// Whether a record's supplied fields pass validation: a contact email
/// address, when present, must be syntactically valid.
pub open spec fn entry_valid(e: EntryData) -> bool {
    e.email is Some ==> email_ok(e.email->Some_0)
}

impl Entry {
    /// Check the record's supplied fields, reporting the first offending one.
    pub fn validate(&self) -> (r: Result<(), ParameterError>)
        ensures
            r == if entry_valid(self@) {
                Ok::<(), ParameterError>(())
            } else {
                Err::<(), ParameterError>(ParameterError::Email)
            },
    {
        match &self.email {
            Some(address) => {
                if is_valid_email(address.as_str()) {
                    Ok(())
                } else {
                    Err(ParameterError::Email)
                }
            },
            None => Ok(()),
        }
    }
}

} // verus!

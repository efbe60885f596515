//! Taking the full text of a license from its detail document.

use crate::license::{LicenseDetails, LicenseEntry, RetrievalError};
use vstd::prelude::*;

verus! {

impl LicenseEntry {
    /// Takes what the detail source answered when it was asked, once, for
    /// `details_url` of this entry, and gives the full text of the license.
    /// A failure of the source is handed on as it came, wrapped as a
    /// [`RetrievalError`]; nothing is tried again and nothing is kept.
    pub fn fetch_text<E>(&self, response: Result<LicenseDetails, E>) -> (text: Result<
        String,
        RetrievalError<E>,
    >)
        ensures
            text == match response {
                Ok(details) => Ok::<String, RetrievalError<E>>(details.license_text),
                Err(failure) => Err((RetrievalError { cause: failure })),
            },
    {
        match response {
            Ok(details) => Ok(details.license_text),
            Err(failure) => Err(RetrievalError { cause: failure }),
        }
    }
}

} // verus!

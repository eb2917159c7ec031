//! Error values surfaced by the library.

use vstd::prelude::*;
use vstd::string::StringExecFns;

verus! {

/// The failures the library reports to its callers.
#[derive(Debug, Clone, PartialEq, Eq)]
pub enum Error {
    /// A language or ecosystem selector that the catalog does not know.
    InvalidLanguage(String),
    /// Text that is not a well-formed (major, minor, patch) version.
    InvalidVersion(String),
    /// Any other failure, carrying a human-readable message.
    Unknown(String),
}

impl Error {
    /// A human-readable description of the error.
    pub fn message(&self) -> (r: String)
        ensures
            match self {
                Error::InvalidLanguage(s) => r@ == "Invalid Language: "@ + s@,
                Error::InvalidVersion(s) => r@ == "Invalid Version: "@ + s@,
                Error::Unknown(s) => r@ == "Unknown Error: "@ + s@,
            },
    {
        match self {
            Error::InvalidLanguage(s) => String::from_str("Invalid Language: ").concat(s.as_str()),
            Error::InvalidVersion(s) => String::from_str("Invalid Version: ").concat(s.as_str()),
            Error::Unknown(s) => String::from_str("Unknown Error: ").concat(s.as_str()),
        }
    }
}

} // verus!

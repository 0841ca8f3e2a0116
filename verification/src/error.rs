//! The failures a request can end in.

use vstd::prelude::*;

verus! {

/// Why an operation of the catalog or of the snapshot layer failed.
#[derive(Clone, Copy, Debug, PartialEq, Eq, Structural)]
pub enum Error {
    /// The credential is missing, unknown or expired.
    Unauthorized,
    /// A share, schema, table or token is absent, or not visible to the
    /// token that asked.
    NotFound,
    /// A new row would break a uniqueness rule of the catalog.
    Conflict,
    /// The table-format reader could not produce a snapshot.
    UpstreamSnapshot,
    /// A file of the snapshot could not be signed.
    UpstreamSigning,
    /// An administrative form did not parse.
    Validation,
    /// The table's snapshot was asked for before it was loaded.
    NotATable,
}

impl Error {
    /// The HTTP status that reports this failure.
    pub open spec fn spec_status(self) -> u16 {
        match self {
            Error::Unauthorized => 401,
            Error::NotFound => 404,
            Error::Validation => 500,
            Error::Conflict => 500,
            Error::UpstreamSnapshot => 500,
            Error::UpstreamSigning => 500,
            Error::NotATable => 500,
        }
    }

    /// The HTTP status that reports this failure.
    #[verifier::when_used_as_spec(spec_status)]
    pub fn status(self) -> (code: u16)
        ensures
            code == self.spec_status(),
    {
        match self {
            Error::Unauthorized => 401,
            Error::NotFound => 404,
            Error::Validation => 500,
            Error::Conflict => 500,
            Error::UpstreamSnapshot => 500,
            Error::UpstreamSigning => 500,
            Error::NotATable => 500,
        }
    }
}

} // verus!

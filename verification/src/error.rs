use vstd::prelude::*;

verus! {

/// Errors surfaced by the entropy sources and the aggregator.
///
/// A timeout is never an error: a source that runs out of time simply
/// yields fewer bytes than requested.
#[derive(Clone, Copy, Debug, PartialEq, Eq, Structural)]
pub enum Error {
    /// The OS reported a failure without setting a positive errno.
    ErrnoNotPositive,
    /// Internal invariant violation (no sources configured, a lost
    /// generation task) or an empty-result edge case.
    Unexpected,
    /// An OS-level failure, carrying the raw error code.
    OsError(u32),
}

impl Error {
    /// Short description of the error kind.
    pub fn message(&self) -> (s: &'static str)
        ensures
            self is ErrnoNotPositive ==> s@ == "No positive errno set"@,
            self is Unexpected ==> s@ == "Unexpected error occurred"@,
            self is OsError ==> s@ == "OS error"@,
    {
        match self {
            Error::ErrnoNotPositive => "No positive errno set",
            Error::Unexpected => "Unexpected error occurred",
            Error::OsError(_) => "OS error",
        }
    }
}

impl From<u32> for Error {
    fn from(code: u32) -> (e: Error) {
        Error::OsError(code)
    }
}

impl vstd::std_specs::convert::FromSpecImpl<u32> for Error {
    open spec fn obeys_from_spec() -> bool {
        true
    }

    open spec fn from_spec(code: u32) -> Error {
        Error::OsError(code)
    }
}

} // verus!

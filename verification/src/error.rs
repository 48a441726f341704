use vstd::prelude::*;

verus! {

/// Errors returned by the certificate contract.
#[derive(Clone, Copy, Debug, PartialEq, Eq, Structural)]
pub enum Error {
    NotOwner,
    Unauthorized,
    AlreadyIssued,
    NotFound,
    InvalidQuest,
    AlreadyRevoked,
    MetadataBaseNotSet,
    InvalidInput,
    Paused,
}

/// The numeric code under which each error is reported on chain.
pub open spec fn error_code(e: Error) -> u32 {
    match e {
        Error::NotOwner => 10,
        Error::Unauthorized => 2,
        Error::AlreadyIssued => 20,
        Error::NotFound => 1,
        Error::InvalidQuest => 5,
        Error::AlreadyRevoked => 6,
        Error::MetadataBaseNotSet => 7,
        Error::InvalidInput => 3,
        Error::Paused => 400,
    }
}

impl Error {
    /// The contract error code of this error.
    pub fn code(&self) -> (c: u32)
        ensures
            c == error_code(*self),
    {
        match self {
            Error::NotOwner => 10,
            Error::Unauthorized => 2,
            Error::AlreadyIssued => 20,
            Error::NotFound => 1,
            Error::InvalidQuest => 5,
            Error::AlreadyRevoked => 6,
            Error::MetadataBaseNotSet => 7,
            Error::InvalidInput => 3,
            Error::Paused => 400,
        }
    }
}

} // verus!

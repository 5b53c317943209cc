//! The failures that the library reports to its callers.

use vstd::prelude::*;

verus! {

/// Failures of lookups and of the login exchange.
#[derive(Clone, Copy, Debug, PartialEq, Eq, Structural)]
pub enum Error {
    /// No record is known under the id or name asked for.
    UnknownId,
    /// A request named no participant.
    NoId,
    /// No record is known, where the caller expected the participant to be
    /// ranked.
    NotLevelFive,
    /// The login state is unknown, expired or already used.
    InvalidState,
    /// The upstream refused to exchange the authorization code.
    CodeExchangeFailed,
    /// Login is not configured.
    OauthDisabled,
}

/// The text shown to a user for each failure.
pub open spec fn error_text(e: Error) -> Seq<char> {
    match e {
        Error::UnknownId => "ID not known- May not exist or may not be cached"@,
        Error::NoId => "You must specify an ID"@,
        Error::NotLevelFive => "This user is not ranked or may be uncached"@,
        Error::InvalidState => "Invalid OAuth2 State"@,
        Error::CodeExchangeFailed => "OAuth2 Code Exchange failed"@,
        Error::OauthDisabled => "OAuth2 is disabled on this search6 instance"@,
    }
}

impl Error {
    /// The text shown to a user for this failure.
    pub fn message(&self) -> (r: &'static str)
        ensures
            r@ == error_text(*self),
    {
        match self {
            Error::UnknownId => "ID not known- May not exist or may not be cached",
            Error::NoId => "You must specify an ID",
            Error::NotLevelFive => "This user is not ranked or may be uncached",
            Error::InvalidState => "Invalid OAuth2 State",
            Error::CodeExchangeFailed => "OAuth2 Code Exchange failed",
            Error::OauthDisabled => "OAuth2 is disabled on this search6 instance",
        }
    }
}

} // verus!

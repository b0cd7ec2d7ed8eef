//! Failure kinds reported by the repository and its parts.

use vstd::prelude::*;

verus! {

/// Why a submitted document, or the identifiers that came with it, was refused.
#[derive(Clone, Copy, Debug, PartialEq, Eq, Structural)]
pub enum ValidationError {
    /// The organization identifier is the empty string.
    EmptyOrganization,
    /// The title is the empty string.
    EmptyTitle,
    /// The document has no `panels` member.
    MissingPanels,
    /// The `panels` member is present but is not a sequence.
    PanelsNotSequence,
    /// The element at `index` of `panels` is not a structured object.
    MalformedPanel { index: usize },
    /// An update was submitted without the version it is based on.
    MissingVersion,
}

/// Every way in which an operation of the repository can fail.
#[derive(Clone, Copy, Debug, PartialEq, Eq, Structural)]
pub enum Error {
    /// The input was malformed; the caller has to correct it.
    Validation(ValidationError),
    /// The organization holds no dashboard with that identifier.
    NotFound,
    /// The organization already holds a dashboard with that identifier.
    AlreadyExists,
    /// The update was based on a version that is no longer current.
    Conflict,
    /// The store could not serve the request.
    InfrastructureFailure,
}

impl Error {
    /// The HTTP status that reports this failure: 400 for malformed input,
    /// 404 for a missing dashboard, 409 for a taken identifier or a stale
    /// version, 503 when the store could not serve the request.
    pub open spec fn status_spec(self) -> u16 {
        match self {
            Error::Validation(_) => 400,
            Error::NotFound => 404,
            Error::AlreadyExists => 409,
            Error::Conflict => 409,
            Error::InfrastructureFailure => 503,
        }
    }

    /// Whether the same request may succeed when it is sent again unchanged.
    pub open spec fn retryable_spec(self) -> bool {
        self == Error::InfrastructureFailure
    }

    #[verifier::when_used_as_spec(status_spec)]
    pub fn status(self) -> (code: u16)
        ensures
            code == self.status_spec(),
    {
        match self {
            Error::Validation(_) => 400,
            Error::NotFound => 404,
            Error::AlreadyExists => 409,
            Error::Conflict => 409,
            Error::InfrastructureFailure => 503,
        }
    }

    #[verifier::when_used_as_spec(retryable_spec)]
    pub fn retryable(self) -> (yes: bool)
        ensures
            yes == self.retryable_spec(),
    {
        match self {
            Error::InfrastructureFailure => true,
            _ => false,
        }
    }
}

} // verus!

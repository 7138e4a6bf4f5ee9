use vstd::prelude::*;

verus! {

/// Classified failure of an analysis request.
#[derive(Debug, Clone, PartialEq, Eq)]
pub enum ApiError {
    /// The reference-data store failed.
    Database(String),
    /// The external price source failed or answered malformed data.
    ExternalApi(String),
    /// A salvage item named in a request has no entry in the reference data.
    UnknownSalvageItem(String),
    /// A referenced type id has no entry in the reference data.
    UnknownType(i32),
    /// A request field is malformed or out of range.
    InvalidInput(String),
    /// Any other failure.
    Internal(String),
}

impl ApiError {
    /// The HTTP status class of the error.
    pub open spec fn spec_status_code(&self) -> u16 {
        match self {
            ApiError::Database(_) => 500,
            ApiError::ExternalApi(_) => 502,
            ApiError::UnknownSalvageItem(_) => 404,
            ApiError::UnknownType(_) => 404,
            ApiError::InvalidInput(_) => 400,
            ApiError::Internal(_) => 500,
        }
    }

    pub fn status_code(&self) -> (r: u16)
        ensures
            r == self.spec_status_code(),
    {
        match self {
            ApiError::Database(_) => 500,
            ApiError::ExternalApi(_) => 502,
            ApiError::UnknownSalvageItem(_) => 404,
            ApiError::UnknownType(_) => 404,
            ApiError::InvalidInput(_) => 400,
            ApiError::Internal(_) => 500,
        }
    }

    /// Whether the details of the error may be shown to the client; store
    /// failures are reported only by their class.
    pub fn is_public(&self) -> (r: bool)
        ensures
            r == !(self is Database),
    {
        match self {
            ApiError::Database(_) => false,
            _ => true,
        }
    }
}

} // verus!

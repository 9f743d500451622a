//! The error taxonomy of the service and its mapping to HTTP status codes.

use vstd::prelude::*;

verus! {

/// Every failure a handler can report, as a structured value.
///
/// Handlers never inspect driver error strings; the application classifies a
/// database or filesystem failure into one of these variants before handing
/// it to the library.
#[derive(Clone, Copy, Debug, PartialEq, Eq, Structural)]
pub enum ApiError {
    /// No session, an expired session, or an insufficient role.
    Unauthorized,
    /// The requested row or file does not exist.
    NotFound,
    /// A uniqueness constraint was violated.
    Conflict,
    /// The request itself is malformed.
    Validation,
    /// A database or filesystem failure.
    Internal,
}

impl ApiError {
    /// The HTTP status code a response carries for this error.
    pub fn status_code(&self) -> (code: u16)
        ensures
            code == self.spec_status_code(),
    {
        match self {
            ApiError::Unauthorized => 401,
            ApiError::NotFound => 404,
            ApiError::Conflict => 409,
            ApiError::Validation => 422,
            ApiError::Internal => 500,
        }
    }

    pub open spec fn spec_status_code(&self) -> u16 {
        match self {
            ApiError::Unauthorized => 401,
            ApiError::NotFound => 404,
            ApiError::Conflict => 409,
            ApiError::Validation => 422,
            ApiError::Internal => 500,
        }
    }

    /// The `status` field of the JSON failure body: `"error"` for server
    /// faults, `"fail"` for everything the client can correct.
    pub fn status_label(&self) -> (label: &'static str)
        ensures
            *self is Internal ==> label@ == "error"@,
            !(*self is Internal) ==> label@ == "fail"@,
    {
        match self {
            ApiError::Internal => "error",
            _ => "fail",
        }
    }

    /// The generic client-facing message for this error; raw driver text is
    /// never surfaced.
    pub fn message(&self) -> (msg: &'static str)
        ensures
            *self is Unauthorized ==> msg@ == "Unauthorized"@,
            *self is NotFound ==> msg@ == "Not found"@,
            *self is Conflict ==> msg@ == "Already exists"@,
            *self is Validation ==> msg@ == "Invalid request"@,
            *self is Internal ==> msg@ == "Something went wrong"@,
    {
        match self {
            ApiError::Unauthorized => "Unauthorized",
            ApiError::NotFound => "Not found",
            ApiError::Conflict => "Already exists",
            ApiError::Validation => "Invalid request",
            ApiError::Internal => "Something went wrong",
        }
    }
}

} // verus!

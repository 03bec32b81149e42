//! Errors of the request handlers and the status codes they are answered with.
use vstd::prelude::*;

verus! {

/// The result of a request handler.
pub type ApiResult<T> = Result<T, ApiError>;

/// An error that fails a whole request.
pub enum ApiError {
    NotFound(String),
    BadRequest(String),
    InternalError(String),
}

impl ApiError {
    /// The HTTP status code of the error: 404, 400 or 500.
    pub open spec fn status_spec(&self) -> u16 {
        match self {
            ApiError::NotFound(_) => 404,
            ApiError::BadRequest(_) => 400,
            ApiError::InternalError(_) => 500,
        }
    }

    /// The human-readable message of the error.
    pub open spec fn message_spec(&self) -> Seq<char> {
        match self {
            ApiError::NotFound(m) => m@,
            ApiError::BadRequest(m) => m@,
            ApiError::InternalError(m) => m@,
        }
    }

    pub fn status_code(&self) -> (r: u16)
        ensures
            r == self.status_spec(),
    {
        match self {
            ApiError::NotFound(_) => 404,
            ApiError::BadRequest(_) => 400,
            ApiError::InternalError(_) => 500,
        }
    }

    pub fn message(&self) -> (r: String)
        ensures
            r@ == self.message_spec(),
    {
        match self {
            ApiError::NotFound(m) => m.clone(),
            ApiError::BadRequest(m) => m.clone(),
            ApiError::InternalError(m) => m.clone(),
        }
    }

    /// An internal error carrying a collaborator's failure message.
    pub fn internal(message: String) -> (r: ApiError)
        ensures
            r.status_spec() == 500,
            r.message_spec() == message@,
    {
        ApiError::InternalError(message)
    }
}

} // verus!

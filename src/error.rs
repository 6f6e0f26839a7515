use vstd::prelude::*;

verus! {

/// The closed set of failure kinds that every operation of the library reports.
#[derive(Debug, Clone, Copy, PartialEq, Eq, Structural)]
pub enum ApiError {
    AlreadyExists,
    BadRequest,
    InternalServerError,
    NotFound,
    Unauthorized,
}

/// The HTTP status that the boundary reports for each kind of failure.
pub open spec fn status_of(e: ApiError) -> u16 {
    match e {
        ApiError::AlreadyExists => 409,
        ApiError::BadRequest => 400,
        ApiError::InternalServerError => 500,
        ApiError::NotFound => 404,
        ApiError::Unauthorized => 401,
    }
}

/// The text that names each kind of failure in a response body.
pub open spec fn message_of(e: ApiError) -> Seq<char> {
    match e {
        ApiError::AlreadyExists => "ALREADY_EXISTS"@,
        ApiError::BadRequest => "BAD_REQUEST"@,
        ApiError::InternalServerError => "INTERNAL_SERVER_ERROR"@,
        ApiError::NotFound => "NOT_FOUND"@,
        ApiError::Unauthorized => "UNAUTHORIZED"@,
    }
}

impl ApiError {
    /// The name of this failure kind, as it appears in a response body.
    pub fn message(&self) -> (r: String)
        ensures
            r@ == message_of(*self),
    {
        let s = match self {
            ApiError::AlreadyExists => "ALREADY_EXISTS",
            ApiError::BadRequest => "BAD_REQUEST",
            ApiError::InternalServerError => "INTERNAL_SERVER_ERROR",
            ApiError::NotFound => "NOT_FOUND",
            ApiError::Unauthorized => "UNAUTHORIZED",
        };
        s.to_owned()
    }
}

/// What a failed request answers with: only the kind of failure, never
/// internal diagnostic text.
#[derive(Debug, Clone, Copy, PartialEq, Eq, Structural)]
pub struct ErrorResponse {
    pub inner: ApiError,
}

impl From<ApiError> for ErrorResponse {
    /// Wraps a failure kind for the boundary.
    fn from(error: ApiError) -> (r: ErrorResponse) {
        ErrorResponse { inner: error }
    }
}

impl vstd::std_specs::convert::FromSpecImpl<ApiError> for ErrorResponse {
    open spec fn obeys_from_spec() -> bool {
        true
    }

    open spec fn from_spec(error: ApiError) -> ErrorResponse {
        ErrorResponse { inner: error }
    }
}

impl ErrorResponse {
    /// The HTTP status of this response: a single, total mapping of the kinds.
    pub fn status_code(&self) -> (r: u16)
        ensures
            r == status_of(self.inner),
    {
        match self.inner {
            ApiError::AlreadyExists => 409,
            ApiError::BadRequest => 400,
            ApiError::InternalServerError => 500,
            ApiError::NotFound => 404,
            ApiError::Unauthorized => 401,
        }
    }

    /// The body text of this response.
    pub fn message(&self) -> (r: String)
        ensures
            r@ == message_of(self.inner),
    {
        self.inner.message()
    }
}

} // verus!

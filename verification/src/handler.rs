pub mod ranges;
pub mod time_ranges;

use vstd::prelude::*;

use crate::domain::range::{repository_error_message, RepositoryError};
use crate::domain::time::TimeError;

verus! {

/// HTTP status code of a request that cannot be served as sent.
pub const BAD_REQUEST: u16 = 400;

/// HTTP status code of a request for something that does not exist.
pub const NOT_FOUND: u16 = 404;

/// HTTP status code of a failure on the server's side.
pub const INTERNAL_SERVER_ERROR: u16 = 500;

/// HTTP status code of a request that was served.
pub const OK: u16 = 200;

/// HTTP status code of a request that stored something new.
pub const CREATED: u16 = 201;

/// The body and status of a refused request.
#[derive(Debug)]
pub struct ErrorResponse {
    message: String,
    code: u16,
}

/// The status that answers a repository error.
pub open spec fn repository_error_code(e: RepositoryError) -> u16 {
    match e {
        RepositoryError::Database(_) => INTERNAL_SERVER_ERROR,
        RepositoryError::Serialization(_) => INTERNAL_SERVER_ERROR,
        RepositoryError::NotExists => NOT_FOUND,
        RepositoryError::Intersects => BAD_REQUEST,
    }
}

/// The message that answers a repository error.
pub open spec fn repository_error_response_message(e: RepositoryError) -> Seq<char> {
    match e {
        RepositoryError::Database(s) => s@,
        RepositoryError::Serialization(s) => s@,
        RepositoryError::NotExists => repository_error_message(e),
        RepositoryError::Intersects => "range intersects with exists"@,
    }
}

impl ErrorResponse {
    /// The message of the response.
    pub closed spec fn spec_message(&self) -> Seq<char> {
        self.message@
    }

    /// The status code of the response.
    pub closed spec fn spec_code(&self) -> u16 {
        self.code
    }

    pub fn bad_request(msg: String) -> (r: ErrorResponse)
        ensures
            r.spec_message() == msg@,
            r.spec_code() == BAD_REQUEST,
    {
        ErrorResponse { message: msg, code: BAD_REQUEST }
    }

    pub fn internal(msg: String) -> (r: ErrorResponse)
        ensures
            r.spec_message() == msg@,
            r.spec_code() == INTERNAL_SERVER_ERROR,
    {
        ErrorResponse { message: msg, code: INTERNAL_SERVER_ERROR }
    }

    pub fn not_found(msg: String) -> (r: ErrorResponse)
        ensures
            r.spec_message() == msg@,
            r.spec_code() == NOT_FOUND,
    {
        ErrorResponse { message: msg, code: NOT_FOUND }
    }

    pub fn message(&self) -> (r: &String)
        ensures
            r@ == self.spec_message(),
    {
        &self.message
    }

    pub fn code(&self) -> (r: u16)
        ensures
            r == self.spec_code(),
    {
        self.code
    }

    /// The response to a repository error: a database or serialization
    /// failure is the server's, an intersection is the request's, and a
    /// missing range is not found.
    pub fn from_repository_error(value: RepositoryError) -> (r: ErrorResponse)
        ensures
            r.spec_code() == repository_error_code(value),
            r.spec_message() == repository_error_response_message(value),
    {
        match value {
            RepositoryError::Database(err) => ErrorResponse::internal(err),
            RepositoryError::Serialization(err) => ErrorResponse::internal(err),
            RepositoryError::NotExists => {
                let msg = RepositoryError::NotExists.to_string();
                ErrorResponse::not_found(msg)
            },
            RepositoryError::Intersects => ErrorResponse::bad_request(
                "range intersects with exists".to_owned(),
            ),
        }
    }

    /// The response to an invalid time: the request's fault, with the
    /// message of the error.
    pub fn from_time_error(value: TimeError) -> (r: ErrorResponse)
        ensures
            r.spec_code() == BAD_REQUEST,
            r.spec_message() == match value {
                TimeError::Hours => "hours should be in [0..23]"@,
                TimeError::Minutes => "minutes should be in [0..59]"@,
                TimeError::Seconds => "seconds should be in [0..59]"@,
            },
    {
        ErrorResponse::bad_request(value.to_string())
    }
}

} // verus!

//! Errors that the API answers with.

use vstd::prelude::*;

verus! {

/// The class of an API error; each has its HTTP status.
#[derive(Debug, Clone, Copy, PartialEq, Eq, Structural)]
pub enum ErrorKind {
    BadRequest,
    Unauthorized,
    Forbidden,
    NotFound,
    Conflict,
    Internal,
}

/// The HTTP status code of each class.
pub open spec fn status_of(kind: ErrorKind) -> u16 {
    match kind {
        ErrorKind::BadRequest => 400,
        ErrorKind::Unauthorized => 401,
        ErrorKind::Forbidden => 403,
        ErrorKind::NotFound => 404,
        ErrorKind::Conflict => 409,
        ErrorKind::Internal => 500,
    }
}

impl ErrorKind {
    /// The HTTP status code of the class.
    pub fn status(&self) -> (res: u16)
        ensures
            res == status_of(*self),
    {
        match self {
            ErrorKind::BadRequest => 400,
            ErrorKind::Unauthorized => 401,
            ErrorKind::Forbidden => 403,
            ErrorKind::NotFound => 404,
            ErrorKind::Conflict => 409,
            ErrorKind::Internal => 500,
        }
    }
}

/// An error answer: its class and the message shown to the client.
#[derive(Debug)]
pub struct ApiError {
    pub kind: ErrorKind,
    pub message: String,
}

/// Whether `e` is of class `kind` with the message `message`.
pub open spec fn is_api_error(e: ApiError, kind: ErrorKind, message: Seq<char>) -> bool {
    e.kind == kind && e.message@ == message
}

impl ApiError {
    pub fn new(kind: ErrorKind, message: &str) -> (e: ApiError)
        ensures
            is_api_error(e, kind, message@),
    {
        ApiError { kind, message: message.to_owned() }
    }

    pub fn bad_request(message: &str) -> (e: ApiError)
        ensures
            is_api_error(e, ErrorKind::BadRequest, message@),
    {
        ApiError::new(ErrorKind::BadRequest, message)
    }

    pub fn unauthorized(message: &str) -> (e: ApiError)
        ensures
            is_api_error(e, ErrorKind::Unauthorized, message@),
    {
        ApiError::new(ErrorKind::Unauthorized, message)
    }

    pub fn forbidden(message: &str) -> (e: ApiError)
        ensures
            is_api_error(e, ErrorKind::Forbidden, message@),
    {
        ApiError::new(ErrorKind::Forbidden, message)
    }

    pub fn not_found(message: &str) -> (e: ApiError)
        ensures
            is_api_error(e, ErrorKind::NotFound, message@),
    {
        ApiError::new(ErrorKind::NotFound, message)
    }

    pub fn conflict(message: &str) -> (e: ApiError)
        ensures
            is_api_error(e, ErrorKind::Conflict, message@),
    {
        ApiError::new(ErrorKind::Conflict, message)
    }

    pub fn internal(message: &str) -> (e: ApiError)
        ensures
            is_api_error(e, ErrorKind::Internal, message@),
    {
        ApiError::new(ErrorKind::Internal, message)
    }
}

} // verus!

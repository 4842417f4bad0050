//! The errors that a request can end with, their messages and their HTTP
//! status codes.

use crate::util::multipart::MultipartError;
use vstd::prelude::*;
use vstd::std_specs::convert::FromSpecImpl;

verus! {

/// Why a request was not served. `Internal` and `BadRequest` carry the
/// message of the error that caused them.
#[derive(Debug)]
pub enum RequestError {
    Teapot,
    NotFound,
    Unauthorized,
    Internal(String),
    BadRequest(String),
}

impl RequestError {
    /// The message for the client. What went wrong inside the server is not
    /// told.
    pub open spec fn text(self) -> Seq<char> {
        match self {
            RequestError::Internal(_) => "Internal error"@,
            RequestError::BadRequest(info) => "Bad request: "@ + info@,
            RequestError::NotFound => "Not found"@,
            RequestError::Unauthorized => "Unauthorized"@,
            RequestError::Teapot => "Something fishy is going on"@,
        }
    }

    /// The HTTP status code of the error.
    pub open spec fn status(self) -> u16 {
        match self {
            RequestError::Internal(_) => 500,
            RequestError::BadRequest(_) => 400,
            RequestError::NotFound => 404,
            RequestError::Unauthorized => 401,
            RequestError::Teapot => 418,
        }
    }

    /// Writes the message for the client.
    pub fn to_string(&self) -> (message: String)
        ensures
            message@ == self.text(),
    {
        match self {
            RequestError::Internal(_) => String::from_str("Internal error"),
            RequestError::BadRequest(info) => String::from_str("Bad request: ").concat(
                info.as_str(),
            ),
            RequestError::NotFound => String::from_str("Not found"),
            RequestError::Unauthorized => String::from_str("Unauthorized"),
            RequestError::Teapot => String::from_str("Something fishy is going on"),
        }
    }

    /// Tells the HTTP status code of the error.
    pub fn status_code(&self) -> (code: u16)
        ensures
            code == self.status(),
    {
        match self {
            RequestError::Internal(_) => 500,
            RequestError::BadRequest(_) => 400,
            RequestError::NotFound => 404,
            RequestError::Unauthorized => 401,
            RequestError::Teapot => 418,
        }
    }
}

/// Whether `converted` is what an error of the multipart reader becomes: a
/// failure of the server stays internal, everything else is the client's
/// fault, and either way the message of the error is kept.
pub open spec fn fits(error: MultipartError, converted: RequestError) -> bool {
    match error {
        MultipartError::Internal(_) => converted matches RequestError::Internal(info) && info@
            == error.text(),
        _ => converted matches RequestError::BadRequest(info) && info@ == error.text(),
    }
}

impl From<MultipartError> for RequestError {
    fn from(error: MultipartError) -> (converted: RequestError)
        ensures
            fits(error, converted),
    {
        let message = error.to_string();
        match error {
            MultipartError::Internal(_) => RequestError::Internal(message),
            _ => RequestError::BadRequest(message),
        }
    }
}

/// The conversion makes a new message, and a message is known by its text
/// only: what it returns is said by `fits`, not by a function.
impl FromSpecImpl<MultipartError> for RequestError {
    open spec fn obeys_from_spec() -> bool {
        false
    }

    open spec fn from_spec(error: MultipartError) -> RequestError {
        choose|converted: RequestError| fits(error, converted)
    }
}

} // verus!

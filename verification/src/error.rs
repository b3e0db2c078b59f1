//! The library's error type and how it is answered over HTTP.

use vstd::prelude::*;

verus! {

/// Errors the library reports to its callers.
#[derive(Debug)]
pub enum AppError {
    /// The requested resource does not exist.
    NotFound,
    /// The input is not acceptable; answered with 400.
    BadRequest(String),
    /// A storage, encoding or runtime failure; its text is carried as is.
    Internal(String),
}

impl AppError {
    /// The HTTP status code that answers this error.
    pub fn status_code(&self) -> (code: u16)
        ensures
            code == match self {
                AppError::NotFound => 404u16,
                AppError::BadRequest(_) => 400u16,
                AppError::Internal(_) => 500u16,
            },
    {
        match self {
            AppError::NotFound => 404,
            AppError::BadRequest(_) => 400,
            AppError::Internal(_) => 500,
        }
    }

    /// The error's display text: `not found`, `bad request: <detail>`, or the
    /// carried text of an internal failure.
    pub fn message(&self) -> (text: String)
        ensures
            text@ == match self {
                AppError::NotFound => "not found"@,
                AppError::BadRequest(m) => "bad request: "@ + m@,
                AppError::Internal(m) => m@,
            },
    {
        match self {
            AppError::NotFound => crate::text::copy_str("not found"),
            AppError::BadRequest(m) => crate::text::join2("bad request: ", m.as_str()),
            AppError::Internal(m) => m.clone(),
        }
    }
}

/// A 400 error with the given text.
pub fn bad_request(text: &str) -> (e: AppError)
    ensures
        e matches AppError::BadRequest(m) && m@ == text@,
{
    AppError::BadRequest(crate::text::copy_str(text))
}

} // verus!

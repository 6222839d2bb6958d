//! The error taxonomy of the server. Parsing errors end the connection
//! without a response; routing and file errors are translated to an error
//! status by the connection layer.

use vstd::prelude::*;

verus! {

#[derive(Debug, Clone, Copy, PartialEq, Eq, Structural)]
pub enum HttpError {
    /// The request's first line is empty.
    EmptyRequest,
    /// The request buffer is not valid UTF-8 text.
    EncodingError,
    /// The method token is neither `GET` nor `POST`.
    UnsupportedMethod,
    /// No route family matches the path; answered with 404.
    UnknownRoute,
    /// A served file is missing or unreadable; answered with 404.
    NotFoundError,
    /// Writing a file or creating its directories failed; answered with 500.
    IoError,
}

impl HttpError {
    /// A short name for logs kept by the caller.
    pub fn describe(&self) -> (r: &'static str) {
        match self {
            HttpError::EmptyRequest => "empty request",
            HttpError::EncodingError => "request is not valid text",
            HttpError::UnsupportedMethod => "unsupported method",
            HttpError::UnknownRoute => "unknown route",
            HttpError::NotFoundError => "file not found",
            HttpError::IoError => "file write failed",
        }
    }
}

} // verus!

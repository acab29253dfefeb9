//! The failures of binding and request synthesis.

use reqwest::header::{InvalidHeaderName, InvalidHeaderValue};
use vstd::prelude::*;

verus! {

/// Why no request could be made of an invocation.
#[derive(Debug)]
#[allow(inconsistent_fields)]
pub enum Errors {
    /// The body text is not JSON.
    SerdeJsonError(serde_json::Error),
    /// The header parameter `name` has a name that no header can carry.
    InvalidHeaderName { name: String, source: InvalidHeaderName },
    /// The header `name` was given a value that no header can carry.
    InvalidHeaderValue { name: String, source: InvalidHeaderValue },
    /// The base address is no absolute URL.
    UrlParseError(url::ParseError),
    /// The base address is a URL that no path can be joined to, such as
    /// `mailto:` and `data:` addresses.
    UrlCannotBeABase,
    /// The required parameter `name` was given no value.
    MissingRequiredParameterError { name: String },
    /// The operation declares a method other than GET, POST, PUT and DELETE.
    UnsupportedHttpMethodError { method: String },
    /// The address would be longer than a URL can be, or the request would
    /// carry more headers than a header map accepts.
    RequestTooLarge,
}

/// What an error says, without the underlying library's own error value.
pub enum ErrorKind {
    InvalidBody,
    InvalidHeaderName { name: Seq<char> },
    InvalidHeaderValue { name: Seq<char> },
    InvalidBaseAddress,
    MissingRequiredParameter { name: Seq<char> },
    UnsupportedMethod { method: Seq<char> },
    RequestTooLarge,
}

impl View for Errors {
    type V = ErrorKind;

    open spec fn view(&self) -> ErrorKind {
        match *self {
            Errors::SerdeJsonError(_) => ErrorKind::InvalidBody,
            Errors::InvalidHeaderName { name, .. } => ErrorKind::InvalidHeaderName { name: name@ },
            Errors::InvalidHeaderValue { name, .. } => ErrorKind::InvalidHeaderValue {
                name: name@,
            },
            Errors::UrlParseError(_) => ErrorKind::InvalidBaseAddress,
            Errors::UrlCannotBeABase => ErrorKind::InvalidBaseAddress,
            Errors::MissingRequiredParameterError { name } => ErrorKind::MissingRequiredParameter {
                name: name@,
            },
            Errors::UnsupportedHttpMethodError { method } => ErrorKind::UnsupportedMethod {
                method: method@,
            },
            Errors::RequestTooLarge => ErrorKind::RequestTooLarge,
        }
    }
}

/// A result as the contracts see it: the view of the value, or what the
/// error says.
pub open spec fn outcome<T: View>(result: Result<T, Errors>) -> Result<T::V, ErrorKind> {
    match result {
        Ok(value) => Ok(value@),
        Err(error) => Err(error@),
    }
}

} // verus!

//! The four ways in which building a header section can fail.

use vstd::prelude::*;

verus! {

/// A custom HTTP method was not a token of RFC 7230.
#[derive(Debug)]
pub struct InvalidMethodError(pub(crate) ());

/// A request target was empty or held a space, a carriage return or a
/// line feed.
#[derive(Debug)]
pub struct InvalidUriError(pub(crate) ());

/// A header field name was not a token of RFC 7230, or a value given as
/// already checked held a line break that is not a fold.
#[derive(Debug)]
pub struct InvalidHeaderError(pub(crate) ());

/// The destination has no room for the bytes that were to be written.
#[derive(Debug)]
pub struct InsufficientSpaceError(pub(crate) ());

impl InvalidMethodError {
    /// The text that describes this error.
    pub fn message(&self) -> (text: &'static str)
        ensures
            text@ == "Custom HTTP method contained invalid character"@,
    {
        "Custom HTTP method contained invalid character"
    }
}

impl InvalidUriError {
    /// The text that describes this error.
    pub fn message(&self) -> (text: &'static str)
        ensures
            text@ == "URI contained invalid character"@,
    {
        "URI contained invalid character"
    }
}

impl InvalidHeaderError {
    /// The text that describes this error.
    pub fn message(&self) -> (text: &'static str)
        ensures
            text@ == "Header contained invalid character"@,
    {
        "Header contained invalid character"
    }
}

impl InsufficientSpaceError {
    /// The text that describes this error.
    pub fn message(&self) -> (text: &'static str)
        ensures
            text@ == "Buffer had insufficient space"@,
    {
        "Buffer had insufficient space"
    }
}

impl Default for InsufficientSpaceError {
    fn default() -> Self {
        InsufficientSpaceError(())
    }
}

} // verus!

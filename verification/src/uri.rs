//! Request targets.

use crate::crlf::{CR, LF, SP};
use crate::errors::{InsufficientSpaceError, InvalidUriError};
use crate::sink::{written, Sink};
use vstd::pervasive::unreached;
use vstd::prelude::*;

verus! {

/// Whether `s` can stand as the target of a request line: it is not empty
/// and holds no space, no carriage return and no line feed.
pub open spec fn is_valid_uri(s: Seq<u8>) -> bool {
    &&& s.len() > 0
    &&& forall|i: int| 0 <= i < s.len() ==> !is_uri_breaker(#[trigger] s[i])
}

/// Whether `b` would end the target of a request line, or the line.
pub open spec fn is_uri_breaker(b: u8) -> bool {
    b == SP || b == CR || b == LF
}

/// Decides whether `uri` can stand as the target of a request line, one
/// byte at a time.
pub fn validate_uri(uri: &[u8]) -> (valid: bool)
    ensures
        valid == is_valid_uri(uri@),
{
    let mut i: usize = 0;
    while i < uri.len()
        invariant
            i <= uri@.len(),
            forall|j: int| 0 <= j < i ==> !is_uri_breaker(#[trigger] uri@[j]),
        decreases uri@.len() - i,
    {
        let b = uri[i];
        if b == SP || b == CR || b == LF {
            assert(is_uri_breaker(uri@[i as int]));
            return false;
        }
        i += 1;
    }
    !uri.is_empty()
}

/// The target of a request.
///
/// A target made by one of the checked constructors holds no byte that
/// would end it. One made by `new_unchecked` holds whatever it was given.
#[derive(Copy, Clone, Debug)]
pub struct Uri<'data> {
    uri: &'data [u8],
}

impl<'data> View for Uri<'data> {
    type V = Seq<u8>;

    /// The bytes of the target.
    open spec fn view(&self) -> Seq<u8> {
        self.as_bytes()@
    }
}

impl<'data> Uri<'data> {
    /// The bytes of the target.
    pub closed spec fn spec_as_bytes(&self) -> &'data [u8] {
        self.uri
    }

    /// Whether the target can stand in a request line.
    pub open spec fn is_valid(&self) -> bool {
        is_valid_uri(self@)
    }

    /// Writes the target.
    pub fn write_to(&self, buffer: &mut Sink) -> (res: Result<(), InsufficientSpaceError>)
        ensures
            written(*old(buffer), *final(buffer), self@, res is Ok),
    {
        buffer.try_put_slice(self.uri)
    }

    /// Takes `uri`, which has to be valid, as a target.
    pub fn new(uri: &'data [u8]) -> (made: Self)
        requires
            is_valid_uri(uri@),
        ensures
            made.as_bytes() == uri,
    {
        match Self::try_new(uri) {
            Ok(made) => made,
            Err(_) => unreached(),
        }
    }

    /// Takes `uri` as a target if it is valid.
    pub fn try_new(uri: &'data [u8]) -> (res: Result<Self, InvalidUriError>)
        ensures
            res is Ok <==> is_valid_uri(uri@),
            res matches Ok(made) ==> made.as_bytes() == uri,
    {
        let is_valid = !uri.is_empty() && memchr::memchr3(SP, CR, LF, uri).is_none();
        if !is_valid {
            return Err(InvalidUriError(()));
        }
        Ok(Self { uri })
    }

    /// Takes `uri` as a target without a look at it.
    ///
    /// Where `uri` is not valid, a request line written with it is not a
    /// request line. Nothing else can go wrong.
    pub fn new_unchecked(uri: &'data [u8]) -> (made: Self)
        ensures
            made.as_bytes() == uri,
    {
        Self { uri }
    }

    /// Takes `uri` as a target if it is valid, and finds that out one byte
    /// at a time.
    pub fn try_new_const(uri: &'data [u8]) -> (res: Result<Self, InvalidUriError>)
        ensures
            res is Ok <==> is_valid_uri(uri@),
            res matches Ok(made) ==> made.as_bytes() == uri,
    {
        if !validate_uri(uri) {
            return Err(InvalidUriError(()));
        }
        Ok(Self { uri })
    }

    /// Takes `uri`, which has to be valid, as a target, and goes through it
    /// one byte at a time.
    pub fn new_const(uri: &'data [u8]) -> (made: Self)
        requires
            is_valid_uri(uri@),
        ensures
            made.as_bytes() == uri,
    {
        match Self::try_new_const(uri) {
            Ok(made) => made,
            Err(_) => unreached(),
        }
    }

    /// The bytes of the target.
    #[verifier::when_used_as_spec(spec_as_bytes)]
    pub fn as_bytes(&self) -> (bytes: &'data [u8])
        ensures
            bytes == self.spec_as_bytes(),
    {
        self.uri
    }
}

} // verus!

//! Request methods.

use crate::errors::{InsufficientSpaceError, InvalidMethodError};
use crate::sink::{written, Sink};
use crate::token::{is_token, is_token_bytes};
use vstd::pervasive::unreached;
use vstd::prelude::*;
use vstd::string::StringSliceAdditionalSpecFns;
use vstd::utf8::is_ascii_chars_encode_utf8;

verus! {

/// The method of a request.
///
/// A method made by `try_new` or `new`, and each of the standard methods, is a
/// token. One made by `new_unchecked` is whatever it was given.
#[derive(Copy, Clone, Debug)]
pub struct Method<'data> {
    method: &'data str,
}

impl<'data> View for Method<'data> {
    type V = Seq<u8>;

    /// The bytes of the method's name.
    open spec fn view(&self) -> Seq<u8> {
        self.as_str().spec_bytes()
    }
}

impl<'data> Method<'data> {
    /// The method's name.
    pub closed spec fn spec_as_str(&self) -> &'data str {
        self.method
    }

    /// Whether the method's name is a token.
    pub open spec fn is_valid(&self) -> bool {
        is_token_bytes(self@)
    }

    /// Writes the method's name.
    pub fn write_to(&self, buffer: &mut Sink) -> (res: Result<(), InsufficientSpaceError>)
        ensures
            written(*old(buffer), *final(buffer), self@, res is Ok),
    {
        buffer.try_put_slice(self.method.as_bytes())
    }

    /// The method's name.
    #[verifier::when_used_as_spec(spec_as_str)]
    pub fn as_str(&self) -> (name: &'data str)
        ensures
            name == self.spec_as_str(),
    {
        self.method
    }

    /// A method of the name `method`, if that is a token.
    pub fn try_new(method: &'data str) -> (res: Result<Self, InvalidMethodError>)
        ensures
            res is Ok <==> is_token_bytes(method.spec_bytes()),
            res matches Ok(made) ==> made.as_str() == method,
    {
        if !is_token(method) {
            return Err(InvalidMethodError(()));
        }
        Ok(Self { method })
    }

    /// A method of the name `method`, which has to be a token.
    pub fn new(method: &'data str) -> (made: Self)
        requires
            is_token_bytes(method.spec_bytes()),
        ensures
            made.as_str() == method,
    {
        match Self::try_new(method) {
            Ok(made) => made,
            Err(_) => unreached(),
        }
    }

    /// A method of the name `method`, without a look at it.
    ///
    /// Where `method` is not a token, a request line written with it is not
    /// a request line. Nothing else can go wrong.
    pub fn new_unchecked(method: &'data str) -> (made: Self)
        ensures
            made.as_str() == method,
    {
        Self { method }
    }
}

/// The names of the standard methods are tokens.
proof fn lemma_standard_names_are_tokens()
    ensures
        is_token_bytes("GET".spec_bytes()),
        is_token_bytes("HEAD".spec_bytes()),
        is_token_bytes("POST".spec_bytes()),
        is_token_bytes("PUT".spec_bytes()),
        is_token_bytes("DELETE".spec_bytes()),
        is_token_bytes("CONNECT".spec_bytes()),
        is_token_bytes("OPTIONS".spec_bytes()),
        is_token_bytes("TRACE".spec_bytes()),
{
    reveal_strlit("GET");
    reveal_strlit("HEAD");
    reveal_strlit("POST");
    reveal_strlit("PUT");
    reveal_strlit("DELETE");
    reveal_strlit("CONNECT");
    reveal_strlit("OPTIONS");
    reveal_strlit("TRACE");
    is_ascii_chars_encode_utf8("GET"@);
    is_ascii_chars_encode_utf8("HEAD"@);
    is_ascii_chars_encode_utf8("POST"@);
    is_ascii_chars_encode_utf8("PUT"@);
    is_ascii_chars_encode_utf8("DELETE"@);
    is_ascii_chars_encode_utf8("CONNECT"@);
    is_ascii_chars_encode_utf8("OPTIONS"@);
    is_ascii_chars_encode_utf8("TRACE"@);
}

impl Method<'static> {
    /// HTTP GET.
    pub fn get() -> (made: Self)
        ensures
            made.as_str() == "GET",
            made.is_valid(),
    {
        proof {
            lemma_standard_names_are_tokens();
        }
        Self { method: "GET" }
    }

    /// HTTP HEAD.
    pub fn head() -> (made: Self)
        ensures
            made.as_str() == "HEAD",
            made.is_valid(),
    {
        proof {
            lemma_standard_names_are_tokens();
        }
        Self { method: "HEAD" }
    }

    /// HTTP POST.
    pub fn post() -> (made: Self)
        ensures
            made.as_str() == "POST",
            made.is_valid(),
    {
        proof {
            lemma_standard_names_are_tokens();
        }
        Self { method: "POST" }
    }

    /// HTTP PUT.
    pub fn put() -> (made: Self)
        ensures
            made.as_str() == "PUT",
            made.is_valid(),
    {
        proof {
            lemma_standard_names_are_tokens();
        }
        Self { method: "PUT" }
    }

    /// HTTP DELETE.
    pub fn delete() -> (made: Self)
        ensures
            made.as_str() == "DELETE",
            made.is_valid(),
    {
        proof {
            lemma_standard_names_are_tokens();
        }
        Self { method: "DELETE" }
    }

    /// HTTP CONNECT.
    pub fn connect() -> (made: Self)
        ensures
            made.as_str() == "CONNECT",
            made.is_valid(),
    {
        proof {
            lemma_standard_names_are_tokens();
        }
        Self { method: "CONNECT" }
    }

    /// HTTP OPTIONS.
    pub fn options() -> (made: Self)
        ensures
            made.as_str() == "OPTIONS",
            made.is_valid(),
    {
        proof {
            lemma_standard_names_are_tokens();
        }
        Self { method: "OPTIONS" }
    }

    /// HTTP TRACE.
    pub fn trace() -> (made: Self)
        ensures
            made.as_str() == "TRACE",
            made.is_valid(),
    {
        proof {
            lemma_standard_names_are_tokens();
        }
        Self { method: "TRACE" }
    }
}

} // verus!

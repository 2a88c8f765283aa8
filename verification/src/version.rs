//! Protocol versions.

use crate::decimal::decimal;
use crate::errors::InsufficientSpaceError;
use crate::sink::{lemma_appended_nothing, lemma_written_step, written, Sink};
use crate::writable::HttpWriteable;
use vstd::prelude::*;
use vstd::string::StringSliceAdditionalSpecFns;
use vstd::utf8::is_ascii_chars_encode_utf8;

verus! {

/// The slash between the protocol's name and its version.
pub const SLASH: u8 = 0x2f;

/// The dot between the two numbers of a version.
pub const DOT: u8 = 0x2e;

/// The bytes of `HTTP`.
pub open spec fn http_name() -> Seq<u8> {
    seq![0x48u8, 0x54u8, 0x54u8, 0x50u8]
}

/// A protocol version: the protocol's name and two numbers, written as
/// `HTTP/<major>.<minor>`.
#[derive(Copy, Clone, Debug)]
pub struct Version<'data> {
    proto: &'data str,
    major: u8,
    minor: u8,
}

impl<'data> View for Version<'data> {
    type V = Seq<u8>;

    /// The bytes that the version is written as: the name, a slash, and
    /// the two numbers in decimal with a dot between them.
    open spec fn view(&self) -> Seq<u8> {
        self.name() + seq![SLASH] + decimal(self.major() as nat) + seq![DOT] + decimal(
            self.minor() as nat,
        )
    }
}

impl<'data> Version<'data> {
    /// The bytes of the protocol's name.
    pub closed spec fn name(&self) -> Seq<u8> {
        self.proto.spec_bytes()
    }

    /// The first number of the version.
    pub closed spec fn spec_major(&self) -> u8 {
        self.major
    }

    /// The second number of the version.
    pub closed spec fn spec_minor(&self) -> u8 {
        self.minor
    }

    /// Writes the version.
    pub fn write_to(&self, buffer: &mut Sink) -> (res: Result<(), InsufficientSpaceError>)
        ensures
            written(*old(buffer), *final(buffer), self@, res is Ok),
    {
        let ghost start = *buffer;
        let ghost name = self.name();
        let ghost major = decimal(self.major as nat);
        let ghost minor = decimal(self.minor as nat);
        proof {
            lemma_appended_nothing(start);
        }
        let res = buffer.try_put_slice(self.proto.as_bytes());
        proof {
            lemma_written_step(
                start,
                start,
                *buffer,
                Seq::empty(),
                name,
                seq![SLASH] + major + seq![DOT] + minor,
                res is Ok,
            );
            assert(Seq::<u8>::empty() + name =~= name);
            assert(name + (seq![SLASH] + major + seq![DOT] + minor) =~= self@);
        }
        if res.is_err() {
            return res;
        }
        let ghost before = *buffer;
        let res = buffer.try_put_u8(SLASH);
        proof {
            lemma_written_step(
                start,
                before,
                *buffer,
                name,
                seq![SLASH],
                major + seq![DOT] + minor,
                res is Ok,
            );
            assert(name + seq![SLASH] + (major + seq![DOT] + minor) =~= self@);
        }
        if res.is_err() {
            return res;
        }
        let ghost before = *buffer;
        let res = self.major.write_to(buffer);
        proof {
            lemma_written_step(
                start,
                before,
                *buffer,
                name + seq![SLASH],
                major,
                seq![DOT] + minor,
                res is Ok,
            );
            assert(name + seq![SLASH] + major + (seq![DOT] + minor) =~= self@);
        }
        if res.is_err() {
            return res;
        }
        let ghost before = *buffer;
        let res = buffer.try_put_u8(DOT);
        proof {
            lemma_written_step(
                start,
                before,
                *buffer,
                name + seq![SLASH] + major,
                seq![DOT],
                minor,
                res is Ok,
            );
        }
        if res.is_err() {
            return res;
        }
        let ghost before = *buffer;
        let res = self.minor.write_to(buffer);
        proof {
            lemma_written_step(
                start,
                before,
                *buffer,
                name + seq![SLASH] + major + seq![DOT],
                minor,
                Seq::empty(),
                res is Ok,
            );
        }
        res
    }

    /// The version `HTTP/<major>.<minor>`.
    pub fn http(major: u8, minor: u8) -> (version: Self)
        ensures
            version.name() == http_name(),
            version.major() == major,
            version.minor() == minor,
    {
        proof {
            reveal_strlit("HTTP");
            is_ascii_chars_encode_utf8("HTTP"@);
            assert("HTTP".spec_bytes() =~= http_name());
        }
        Self { major, minor, proto: "HTTP" }
    }

    /// The version `HTTP/1.0`.
    pub fn http_1_0() -> (version: Self)
        ensures
            version.name() == http_name(),
            version.major() == 1,
            version.minor() == 0,
    {
        Self::http(1, 0)
    }

    /// The version `HTTP/1.1`.
    pub fn http_1_1() -> (version: Self)
        ensures
            version.name() == http_name(),
            version.major() == 1,
            version.minor() == 1,
    {
        Self::http(1, 1)
    }

    /// The first number of the version.
    #[verifier::when_used_as_spec(spec_major)]
    pub fn major(&self) -> (major: u8)
        ensures
            major == self.spec_major(),
    {
        self.major
    }

    /// The second number of the version.
    #[verifier::when_used_as_spec(spec_minor)]
    pub fn minor(&self) -> (minor: u8)
        ensures
            minor == self.spec_minor(),
    {
        self.minor
    }
}

} // verus!

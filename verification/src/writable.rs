//! Values that can be written into a header section.

use crate::crlf::{blank_follows, crlf_at, find_unquoted_crlf, is_valid_value, CR, HTAB, SP};
use crate::fold::{
    folded, folded_prefix, lemma_folded_prefix_grows, lemma_folded_prefix_plain, needs_tab_at,
};
use crate::decimal::{
    decimal, lemma_signed_decimal_is_canonical, signed_decimal, write_decimal,
    write_signed_decimal,
};
use crate::errors::InsufficientSpaceError;
use crate::sink::{appended, lemma_written_after, lemma_written_partway, written, Sink};
use std::borrow::Cow;
use vstd::prelude::*;
use vstd::string::StringSliceAdditionalSpecFns;
use vstd::utf8::encode_utf8;

verus! {

/// A value that can stand in a header line.
///
/// What an implementation writes must not be able to end the line it
/// stands in: each `CR LF` outside quoted text is followed by a space or a
/// tab.
pub trait HttpWriteable {
    /// The bytes that this value is written as.
    spec fn encoding(&self) -> Seq<u8>;

    /// Writes this value to `buffer`: all of `encoding()` where the buffer
    /// has room for it, else an error and a part of it.
    fn write_to(&self, buffer: &mut Sink) -> (res: Result<(), InsufficientSpaceError>)
        ensures
            written(*old(buffer), *final(buffer), self.encoding(), res is Ok),
    ;
}

/// The text of an integer holds no line break at all.
pub proof fn lemma_decimal_is_valid_value(v: int)
    ensures
        v >= 0 ==> is_valid_value(decimal(v as nat)),
        is_valid_value(signed_decimal(v)),
{
    lemma_signed_decimal_is_canonical(v);
    assert forall|i: int| !#[trigger] crlf_at(signed_decimal(v), i) by {
        if 0 <= i < signed_decimal(v).len() {
            assert(signed_decimal(v)[i] != CR);
        }
    }
}

impl HttpWriteable for u8 {
    open spec fn encoding(&self) -> Seq<u8> {
        decimal(*self as nat)
    }

    fn write_to(&self, buffer: &mut Sink) -> (res: Result<(), InsufficientSpaceError>) {
        write_decimal(*self as u128, buffer)
    }
}

impl HttpWriteable for u16 {
    open spec fn encoding(&self) -> Seq<u8> {
        decimal(*self as nat)
    }

    fn write_to(&self, buffer: &mut Sink) -> (res: Result<(), InsufficientSpaceError>) {
        write_decimal(*self as u128, buffer)
    }
}

impl HttpWriteable for u32 {
    open spec fn encoding(&self) -> Seq<u8> {
        decimal(*self as nat)
    }

    fn write_to(&self, buffer: &mut Sink) -> (res: Result<(), InsufficientSpaceError>) {
        write_decimal(*self as u128, buffer)
    }
}

impl HttpWriteable for u64 {
    open spec fn encoding(&self) -> Seq<u8> {
        decimal(*self as nat)
    }

    fn write_to(&self, buffer: &mut Sink) -> (res: Result<(), InsufficientSpaceError>) {
        write_decimal(*self as u128, buffer)
    }
}

impl HttpWriteable for u128 {
    open spec fn encoding(&self) -> Seq<u8> {
        decimal(*self as nat)
    }

    fn write_to(&self, buffer: &mut Sink) -> (res: Result<(), InsufficientSpaceError>) {
        write_decimal(*self, buffer)
    }
}

impl HttpWriteable for usize {
    open spec fn encoding(&self) -> Seq<u8> {
        decimal(*self as nat)
    }

    fn write_to(&self, buffer: &mut Sink) -> (res: Result<(), InsufficientSpaceError>) {
        write_decimal(*self as u128, buffer)
    }
}

impl HttpWriteable for i8 {
    open spec fn encoding(&self) -> Seq<u8> {
        signed_decimal(*self as int)
    }

    fn write_to(&self, buffer: &mut Sink) -> (res: Result<(), InsufficientSpaceError>) {
        write_signed_decimal(*self as i128, buffer)
    }
}

impl HttpWriteable for i16 {
    open spec fn encoding(&self) -> Seq<u8> {
        signed_decimal(*self as int)
    }

    fn write_to(&self, buffer: &mut Sink) -> (res: Result<(), InsufficientSpaceError>) {
        write_signed_decimal(*self as i128, buffer)
    }
}

impl HttpWriteable for i32 {
    open spec fn encoding(&self) -> Seq<u8> {
        signed_decimal(*self as int)
    }

    fn write_to(&self, buffer: &mut Sink) -> (res: Result<(), InsufficientSpaceError>) {
        write_signed_decimal(*self as i128, buffer)
    }
}

impl HttpWriteable for i64 {
    open spec fn encoding(&self) -> Seq<u8> {
        signed_decimal(*self as int)
    }

    fn write_to(&self, buffer: &mut Sink) -> (res: Result<(), InsufficientSpaceError>) {
        write_signed_decimal(*self as i128, buffer)
    }
}

impl HttpWriteable for i128 {
    open spec fn encoding(&self) -> Seq<u8> {
        signed_decimal(*self as int)
    }

    fn write_to(&self, buffer: &mut Sink) -> (res: Result<(), InsufficientSpaceError>) {
        write_signed_decimal(*self, buffer)
    }
}

impl HttpWriteable for isize {
    open spec fn encoding(&self) -> Seq<u8> {
        signed_decimal(*self as int)
    }

    fn write_to(&self, buffer: &mut Sink) -> (res: Result<(), InsufficientSpaceError>) {
        write_signed_decimal(*self as i128, buffer)
    }
}

impl<'a> HttpWriteable for &'a [u8] {
    open spec fn encoding(&self) -> Seq<u8> {
        folded(self@)
    }

    fn write_to(&self, buffer: &mut Sink) -> (res: Result<(), InsufficientSpaceError>) {
        let data = *self;
        let len = data.len();
        let mut prev: usize = 0;
        let mut it = find_unquoted_crlf(data);
        loop
            invariant_except_break
                forall|j: int| prev - 1 <= j < it.position() ==> !#[trigger] needs_tab_at(data@, j),
            invariant
                it.wf(),
                it.haystack() == data@,
                data@ == self@,
                len == data@.len(),
                prev <= it.position() <= len,
                appended(*old(buffer), *buffer, folded_prefix(data@, prev as int)),
            ensures
                forall|j: int| prev - 1 <= j ==> !#[trigger] needs_tab_at(data@, j),
            decreases len - it.position(),
        {
            let idx = match it.next() {
                Some(idx) => idx,
                None => {
                    break ;
                },
            };
            if idx + 2 < len && (data[idx + 2] == SP || data[idx + 2] == HTAB) {
                assert(blank_follows(data@, idx as int));
            } else {
                assert(needs_tab_at(data@, idx as int));
                let ghost before = *buffer;
                let ghost chunk = data@.subrange(prev as int, idx + 2);
                let ghost done = folded_prefix(data@, prev as int);
                let ghost all = folded(data@);
                proof {
                    lemma_folded_prefix_plain(data@, prev as int, idx + 1);
                    assert(folded_prefix(data@, idx + 2) =~= (done + chunk) + seq![HTAB]);
                    lemma_folded_prefix_grows(data@, idx + 2, len as int);
                    assert(all.take((done + chunk).len() as int) =~= done + chunk) by {
                        assert(all.take((done + chunk).len() as int + 1) == (done + chunk) + seq![HTAB]);
                    }
                }
                let res = buffer.try_put_slice(&data[prev..idx + 2]);
                if res.is_err() {
                    proof {
                        lemma_written_partway(
                            *old(buffer),
                            before,
                            *buffer,
                            done,
                            chunk,
                            all,
                        );
                    }
                    return res;
                }
                let ghost middle = *buffer;
                proof {
                    assert(middle@ =~= old(buffer)@ + (done + chunk));
                }
                let res = buffer.try_put_u8(HTAB);
                if res.is_err() {
                    proof {
                        lemma_written_partway(
                            *old(buffer),
                            middle,
                            *buffer,
                            done + chunk,
                            seq![HTAB],
                            all,
                        );
                    }
                    return res;
                }
                proof {
                    assert(buffer@ =~= old(buffer)@ + ((done + chunk) + seq![HTAB]));
                }
                prev = idx + 2;
            }
        }
        proof {
            lemma_folded_prefix_plain(data@, prev as int, len as int);
        }
        let ghost before = *buffer;
        let res = buffer.try_put_slice(&data[prev..len]);
        proof {
            lemma_written_after(
                *old(buffer),
                before,
                *buffer,
                folded_prefix(data@, prev as int),
                data@.subrange(prev as int, len as int),
                res is Ok,
            );
        }
        res
    }
}

impl<'a> HttpWriteable for &'a str {
    open spec fn encoding(&self) -> Seq<u8> {
        folded(self.spec_bytes())
    }

    fn write_to(&self, buffer: &mut Sink) -> (res: Result<(), InsufficientSpaceError>) {
        self.as_bytes().write_to(buffer)
    }
}

impl<'a, W: HttpWriteable> HttpWriteable for &'a W {
    open spec fn encoding(&self) -> Seq<u8> {
        (**self).encoding()
    }

    fn write_to(&self, buffer: &mut Sink) -> (res: Result<(), InsufficientSpaceError>) {
        (*self).write_to(buffer)
    }
}

impl HttpWriteable for Vec<u8> {
    open spec fn encoding(&self) -> Seq<u8> {
        folded(self@)
    }

    fn write_to(&self, buffer: &mut Sink) -> (res: Result<(), InsufficientSpaceError>) {
        self.as_slice().write_to(buffer)
    }
}

impl HttpWriteable for String {
    open spec fn encoding(&self) -> Seq<u8> {
        folded(encode_utf8(self@))
    }

    fn write_to(&self, buffer: &mut Sink) -> (res: Result<(), InsufficientSpaceError>) {
        self.as_str().write_to(buffer)
    }
}

impl<'a, W: HttpWriteable + Clone> HttpWriteable for Cow<'a, W> {
    open spec fn encoding(&self) -> Seq<u8> {
        match self {
            Cow::Borrowed(borrowed) => borrowed.encoding(),
            Cow::Owned(owned) => owned.encoding(),
        }
    }

    fn write_to(&self, buffer: &mut Sink) -> (res: Result<(), InsufficientSpaceError>) {
        match self {
            Cow::Borrowed(borrowed) => borrowed.write_to(buffer),
            Cow::Owned(owned) => owned.write_to(buffer),
        }
    }
}

} // verus!

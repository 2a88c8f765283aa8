//! The destination of every write: a byte vector behind a limit.
//!
//! The vector and the limit are kept by `bytes::buf::Limit`, and every byte
//! is written through `bytes::BufMut`. What this module adds is the test
//! for room before each write, so that a write that does not fit is
//! reported and never attempted.

use crate::errors::InsufficientSpaceError;
use bytes::buf::Limit;
use bytes::BufMut;
use vstd::prelude::*;

verus! {

/// `bytes::buf::Limit`, the adapter that lets at most a given number of
/// bytes through to the buffer inside it. Nothing is claimed of what is
/// inside a value but through the two names below.
#[verifier::external_type_specification]
#[verifier::external_body]
#[verifier::reject_recursive_types(T)]
pub struct ExLimit<T>(Limit<T>);

/// The bytes that the vector inside `buf` holds: what `Limit::get_ref`
/// shows.
pub uninterp spec fn limit_contents(buf: Limit<Vec<u8>>) -> Seq<u8>;

/// The limit of `buf`, which `Limit::limit` returns: the number of bytes
/// that it still admits, whatever room the vector inside it has.
pub uninterp spec fn limit_bound(buf: Limit<Vec<u8>>) -> usize;

/// What a limited vector of `len` bytes reports as its room: what a vector
/// can still grow by, `isize::MAX` less its length, or the limit where that
/// is smaller.
pub open spec fn limited_room(len: nat, bound: usize) -> int {
    if isize::MAX - len < bound {
        isize::MAX - len
    } else {
        bound as int
    }
}

/// `BufMut::limit` on a vector: the vector keeps its bytes and admits at
/// most `limit` more.
#[verifier::external_body]
fn limit_new(inner: Vec<u8>, limit: usize) -> (buf: Limit<Vec<u8>>)
    ensures
        limit_contents(buf) == inner@,
        limit_bound(buf) == limit,
{
    inner.limit(limit)
}

/// `Limit::into_inner`: hands the vector back, with the bytes it holds.
#[verifier::external_body]
fn limit_into_inner(buf: Limit<Vec<u8>>) -> (inner: Vec<u8>)
    ensures
        inner@ == limit_contents(buf),
{
    buf.into_inner()
}

/// `Limit::get_ref`: lends the vector, with the bytes it holds.
#[verifier::external_body]
fn limit_get_ref(buf: &Limit<Vec<u8>>) -> (inner: &Vec<u8>)
    ensures
        inner@ == limit_contents(*buf),
{
    buf.get_ref()
}

/// `BufMut::remaining_mut` of a limited vector: the smaller of the limit
/// and of what the vector can still grow by.
#[verifier::external_body]
fn limit_remaining_mut(buf: &Limit<Vec<u8>>) -> (room: usize)
    ensures
        room == limited_room(limit_contents(*buf).len(), limit_bound(*buf)),
{
    buf.remaining_mut()
}

/// `BufMut::put_slice` on a limited vector: appends `src` and lowers the
/// limit by its length. It panics where `src` is longer than
/// `remaining_mut()`, which `requires` leaves out.
#[verifier::external_body]
fn limit_put_slice(buf: &mut Limit<Vec<u8>>, src: &[u8])
    requires
        src@.len() <= limited_room(limit_contents(*old(buf)).len(), limit_bound(*old(buf))),
    ensures
        limit_contents(*final(buf)) == limit_contents(*old(buf)) + src@,
        limit_bound(*final(buf)) == limit_bound(*old(buf)) - src@.len(),
{
    buf.put_slice(src)
}

/// `BufMut::put_u8` on a limited vector: appends `n` and lowers the limit
/// by one. It panics where `remaining_mut()` is zero, which `requires`
/// leaves out.
#[verifier::external_body]
fn limit_put_u8(buf: &mut Limit<Vec<u8>>, n: u8)
    requires
        1 <= limited_room(limit_contents(*old(buf)).len(), limit_bound(*old(buf))),
    ensures
        limit_contents(*final(buf)) == limit_contents(*old(buf)).push(n),
        limit_bound(*final(buf)) == limit_bound(*old(buf)) - 1,
{
    buf.put_u8(n)
}

/// The `nbytes` low bytes of `n`, the most significant of them first.
pub open spec fn be_bytes(n: u64, nbytes: nat) -> Seq<u8> {
    Seq::new(nbytes, |i: int| ((n >> ((8 * (nbytes - 1 - i)) as u64)) & 0xff) as u8)
}

/// The `nbytes` low bytes of `n`, the least significant of them first.
pub open spec fn le_bytes(n: u64, nbytes: nat) -> Seq<u8> {
    Seq::new(nbytes, |i: int| ((n >> ((8 * i) as u64)) & 0xff) as u8)
}

/// `BufMut::put_uint` on a limited vector: appends the last `nbytes` bytes
/// of `n.to_be_bytes()` and lowers the limit by `nbytes`. It panics where
/// `nbytes` is over 8 or over `remaining_mut()`, which `requires` leaves
/// out.
#[verifier::external_body]
fn limit_put_uint(buf: &mut Limit<Vec<u8>>, n: u64, nbytes: usize)
    requires
        nbytes <= 8,
        nbytes <= limited_room(limit_contents(*old(buf)).len(), limit_bound(*old(buf))),
    ensures
        limit_contents(*final(buf)) == limit_contents(*old(buf)) + be_bytes(n, nbytes as nat),
        limit_bound(*final(buf)) == limit_bound(*old(buf)) - nbytes,
{
    buf.put_uint(n, nbytes)
}

/// `BufMut::put_uint_le` on a limited vector: appends the first `nbytes`
/// bytes of `n.to_le_bytes()` and lowers the limit by `nbytes`. It panics
/// where `nbytes` is over 8 or over `remaining_mut()`, which `requires`
/// leaves out.
#[verifier::external_body]
fn limit_put_uint_le(buf: &mut Limit<Vec<u8>>, n: u64, nbytes: usize)
    requires
        nbytes <= 8,
        nbytes <= limited_room(limit_contents(*old(buf)).len(), limit_bound(*old(buf))),
    ensures
        limit_contents(*final(buf)) == limit_contents(*old(buf)) + le_bytes(n, nbytes as nat),
        limit_bound(*final(buf)) == limit_bound(*old(buf)) - nbytes,
{
    buf.put_uint_le(n, nbytes)
}

/// `BufMut::put_int` on a limited vector: appends the last `nbytes` bytes
/// of `n.to_be_bytes()`, which are those of `n` in two's complement, and
/// lowers the limit by `nbytes`. It panics where `nbytes` is over 8 or over
/// `remaining_mut()`, which `requires` leaves out.
#[verifier::external_body]
fn limit_put_int(buf: &mut Limit<Vec<u8>>, n: i64, nbytes: usize)
    requires
        nbytes <= 8,
        nbytes <= limited_room(limit_contents(*old(buf)).len(), limit_bound(*old(buf))),
    ensures
        limit_contents(*final(buf)) == limit_contents(*old(buf)) + be_bytes(
            n as u64,
            nbytes as nat,
        ),
        limit_bound(*final(buf)) == limit_bound(*old(buf)) - nbytes,
{
    buf.put_int(n, nbytes)
}

/// `BufMut::put_int_le` on a limited vector: appends the first `nbytes`
/// bytes of `n.to_le_bytes()`, which are those of `n` in two's complement,
/// and lowers the limit by `nbytes`. It panics where `nbytes` is over 8 or
/// over `remaining_mut()`, which `requires` leaves out.
#[verifier::external_body]
fn limit_put_int_le(buf: &mut Limit<Vec<u8>>, n: i64, nbytes: usize)
    requires
        nbytes <= 8,
        nbytes <= limited_room(limit_contents(*old(buf)).len(), limit_bound(*old(buf))),
    ensures
        limit_contents(*final(buf)) == limit_contents(*old(buf)) + le_bytes(
            n as u64,
            nbytes as nat,
        ),
        limit_bound(*final(buf)) == limit_bound(*old(buf)) - nbytes,
{
    buf.put_int_le(n, nbytes)
}

/// The room of a sink of `len` bytes that was given the limit `limit`.
pub open spec fn room_within(len: nat, limit: usize) -> nat {
    if limited_room(len, limit) < 0 {
        0
    } else {
        limited_room(len, limit) as nat
    }
}

/// A byte buffer that is only ever appended to, and that admits a bounded
/// number of further bytes.
pub struct Sink {
    inner: Limit<Vec<u8>>,
}

impl View for Sink {
    type V = Seq<u8>;

    /// The bytes written so far.
    closed spec fn view(&self) -> Seq<u8> {
        limit_contents(self.inner)
    }
}

/// Whether `after` is `before` with `bytes` written to it.
pub open spec fn appended(before: Sink, after: Sink, bytes: Seq<u8>) -> bool {
    &&& after@ == before@ + bytes
    &&& after.room() == before.room() - bytes.len()
}

/// Whether `after` is `before` with some of `bytes` written to it, from
/// the front and not to the end.
pub open spec fn appended_part(before: Sink, after: Sink, bytes: Seq<u8>) -> bool {
    exists|n: int| 0 <= n < bytes.len() && appended(before, after, #[trigger] bytes.take(n))
}

/// What a write of `bytes` to `before` has to leave behind, `ok` telling
/// whether it reports success: it succeeds exactly where `bytes` fit, and
/// then all of them are written; where it fails, a part of them is.
pub open spec fn written(before: Sink, after: Sink, bytes: Seq<u8>, ok: bool) -> bool {
    &&& ok <==> bytes.len() <= before.room()
    &&& ok ==> appended(before, after, bytes)
    &&& !ok ==> appended_part(before, after, bytes)
}

/// A write of `second` behind a write of `first` that went through is a
/// write of both.
pub proof fn lemma_written_after(
    before: Sink,
    middle: Sink,
    after: Sink,
    first: Seq<u8>,
    second: Seq<u8>,
    ok: bool,
)
    requires
        appended(before, middle, first),
        written(middle, after, second, ok),
    ensures
        written(before, after, first + second, ok),
{
    if ok {
        assert(after@ =~= before@ + (first + second));
    } else {
        let n = choose|n: int|
            0 <= n < second.len() && appended(middle, after, #[trigger] second.take(n));
        assert((first + second).take(first.len() + n) =~= first + second.take(n));
        assert(after@ =~= before@ + (first + second.take(n)));
    }
}

/// A write of `first` that failed is a failed write of `first` and
/// whatever was to follow.
pub proof fn lemma_written_first_failed(
    before: Sink,
    after: Sink,
    first: Seq<u8>,
    second: Seq<u8>,
)
    requires
        written(before, after, first, false),
    ensures
        written(before, after, first + second, false),
{
    let n = choose|n: int| 0 <= n < first.len() && appended(before, after, #[trigger] first.take(n));
    assert((first + second).take(n) =~= first.take(n));
}

/// A write that failed behind `done`, on a `part` that goes on where
/// `done` ends in `all`, is a failed write of `all`.
pub proof fn lemma_written_partway(
    before: Sink,
    middle: Sink,
    after: Sink,
    done: Seq<u8>,
    part: Seq<u8>,
    all: Seq<u8>,
)
    requires
        appended(before, middle, done),
        written(middle, after, part, false),
        (done + part).len() <= all.len(),
        all.take((done + part).len() as int) == done + part,
    ensures
        written(before, after, all, false),
{
    lemma_written_after(before, middle, after, done, part, false);
    let rest = all.skip((done + part).len() as int);
    assert(all =~= (done + part) + rest);
    lemma_written_first_failed(before, after, done + part, rest);
}

/// One step of a write in parts: behind `done`, the write of `part` either
/// goes through, and `done + part` is written, or fails, and so does the
/// write of all the parts, whatever `rest` was to follow.
pub proof fn lemma_written_step(
    start: Sink,
    before: Sink,
    after: Sink,
    done: Seq<u8>,
    part: Seq<u8>,
    rest: Seq<u8>,
    ok: bool,
)
    requires
        appended(start, before, done),
        written(before, after, part, ok),
    ensures
        written(start, after, done + part, ok),
        !ok ==> written(start, after, done + part + rest, false),
{
    lemma_written_after(start, before, after, done, part, ok);
    if !ok {
        lemma_written_first_failed(start, after, done + part, rest);
    }
}

/// A sink without room takes nothing: a write of anything but the empty
/// byte string fails on it and leaves what it holds as it is.
pub proof fn lemma_written_without_room(before: Sink, after: Sink, bytes: Seq<u8>, ok: bool)
    requires
        written(before, after, bytes, ok),
        before.room() == 0,
        bytes.len() > 0,
    ensures
        !ok,
        after@ == before@,
        after.room() == 0,
{
    let n = choose|n: int| 0 <= n < bytes.len() && appended(before, after, #[trigger] bytes.take(n));
    assert(bytes.take(n).len() == 0);
    assert(after@ =~= before@);
}

/// Nothing written is the empty byte string written.
pub proof fn lemma_appended_nothing(sink: Sink)
    ensures
        appended(sink, sink, Seq::<u8>::empty()),
{
    assert(sink@ =~= sink@ + Seq::<u8>::empty());
}

impl Sink {
    /// The number of bytes that can still be written.
    pub closed spec fn room(&self) -> nat {
        room_within(limit_contents(self.inner).len(), limit_bound(self.inner))
    }

    /// A sink that starts with the bytes of `buffer` and admits as many
    /// more as a vector can hold.
    pub fn new(buffer: Vec<u8>) -> (sink: Sink)
        ensures
            sink@ == buffer@,
            sink.room() == room_within(buffer@.len(), usize::MAX),
    {
        Sink::with_limit(buffer, usize::MAX)
    }

    /// A sink that starts with the bytes of `buffer` and admits `limit`
    /// more.
    pub fn with_limit(buffer: Vec<u8>, limit: usize) -> (sink: Sink)
        ensures
            sink@ == buffer@,
            sink.room() == room_within(buffer@.len(), limit),
    {
        Sink { inner: limit_new(buffer, limit) }
    }

    /// The number of bytes that can still be written.
    pub fn remaining_mut(&self) -> (room: usize)
        ensures
            room == self.room(),
    {
        limit_remaining_mut(&self.inner)
    }

    /// The bytes written so far.
    pub fn as_bytes(&self) -> (bytes: &[u8])
        ensures
            bytes@ == self@,
    {
        limit_get_ref(&self.inner).as_slice()
    }

    /// Appends `src`; where `src` does not fit, fails and writes nothing.
    pub fn try_put_slice(&mut self, src: &[u8]) -> (res: Result<(), InsufficientSpaceError>)
        ensures
            written(*old(self), *final(self), src@, res is Ok),
            res is Err ==> *final(self) == *old(self),
    {
        proof {
            assert(self@ =~= self@ + src@.take(0));
        }
        if limit_remaining_mut(&self.inner) < src.len() {
            return Err(InsufficientSpaceError::default());
        }
        limit_put_slice(&mut self.inner, src);
        Ok(())
    }

    /// Appends `n`; where the sink is full, fails and writes nothing.
    pub fn try_put_u8(&mut self, n: u8) -> (res: Result<(), InsufficientSpaceError>)
        ensures
            written(*old(self), *final(self), seq![n], res is Ok),
            res is Err ==> *final(self) == *old(self),
    {
        proof {
            assert(self@ =~= self@ + seq![n].take(0));
        }
        if limit_remaining_mut(&self.inner) < 1 {
            return Err(InsufficientSpaceError::default());
        }
        limit_put_u8(&mut self.inner, n);
        assert(self@ == old(self)@ + seq![n]);
        Ok(())
    }

    /// Appends the `nbytes` low bytes of `n`, the most significant first;
    /// where they do not fit, fails and writes nothing.
    pub fn try_put_uint(&mut self, n: u64, nbytes: usize) -> (res: Result<
        (),
        InsufficientSpaceError,
    >)
        requires
            nbytes <= 8,
        ensures
            written(*old(self), *final(self), be_bytes(n, nbytes as nat), res is Ok),
            res is Err ==> *final(self) == *old(self),
    {
        proof {
            assert(self@ =~= self@ + be_bytes(n, nbytes as nat).take(0));
        }
        if limit_remaining_mut(&self.inner) < nbytes {
            return Err(InsufficientSpaceError::default());
        }
        limit_put_uint(&mut self.inner, n, nbytes);
        Ok(())
    }

    /// Appends the `nbytes` low bytes of `n`, the least significant first;
    /// where they do not fit, fails and writes nothing.
    pub fn try_put_uint_le(&mut self, n: u64, nbytes: usize) -> (res: Result<
        (),
        InsufficientSpaceError,
    >)
        requires
            nbytes <= 8,
        ensures
            written(*old(self), *final(self), le_bytes(n, nbytes as nat), res is Ok),
            res is Err ==> *final(self) == *old(self),
    {
        proof {
            assert(self@ =~= self@ + le_bytes(n, nbytes as nat).take(0));
        }
        if limit_remaining_mut(&self.inner) < nbytes {
            return Err(InsufficientSpaceError::default());
        }
        limit_put_uint_le(&mut self.inner, n, nbytes);
        Ok(())
    }

    /// Appends the `nbytes` low bytes of `n` in two's complement, the most
    /// significant first; where they do not fit, fails and writes nothing.
    pub fn try_put_int(&mut self, n: i64, nbytes: usize) -> (res: Result<
        (),
        InsufficientSpaceError,
    >)
        requires
            nbytes <= 8,
        ensures
            written(*old(self), *final(self), be_bytes(n as u64, nbytes as nat), res is Ok),
            res is Err ==> *final(self) == *old(self),
    {
        proof {
            assert(self@ =~= self@ + be_bytes(n as u64, nbytes as nat).take(0));
        }
        if limit_remaining_mut(&self.inner) < nbytes {
            return Err(InsufficientSpaceError::default());
        }
        limit_put_int(&mut self.inner, n, nbytes);
        Ok(())
    }

    /// Appends the `nbytes` low bytes of `n` in two's complement, the least
    /// significant first; where they do not fit, fails and writes nothing.
    pub fn try_put_int_le(&mut self, n: i64, nbytes: usize) -> (res: Result<
        (),
        InsufficientSpaceError,
    >)
        requires
            nbytes <= 8,
        ensures
            written(*old(self), *final(self), le_bytes(n as u64, nbytes as nat), res is Ok),
            res is Err ==> *final(self) == *old(self),
    {
        proof {
            assert(self@ =~= self@ + le_bytes(n as u64, nbytes as nat).take(0));
        }
        if limit_remaining_mut(&self.inner) < nbytes {
            return Err(InsufficientSpaceError::default());
        }
        limit_put_int_le(&mut self.inner, n, nbytes);
        Ok(())
    }

    /// Gives up the sink for the bytes written to it.
    pub fn into_inner(self) -> (bytes: Vec<u8>)
        ensures
            bytes@ == self@,
    {
        limit_into_inner(self.inner)
    }
}

} // verus!

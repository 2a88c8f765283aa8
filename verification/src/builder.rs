//! The header section as a whole: a start line, header lines, and the
//! empty line that ends the section.

use crate::crlf::{CR, LF, SP};
use crate::decimal::{decimal, lemma_decimal_is_canonical};
use crate::errors::InsufficientSpaceError;
use crate::header::Header;
use crate::method::Method;
use crate::sink::{appended, lemma_appended_nothing, lemma_written_step, written, Sink};
use crate::status::Status;
use crate::token::{is_tchar, is_token_bytes};
use crate::uri::{is_uri_breaker, is_valid_uri, Uri};
use crate::version::{http_name, Version};
use crate::writable::HttpWriteable;
use vstd::prelude::*;
use vstd::string::StringSliceAdditionalSpecFns;

verus! {

/// The line break that ends every line of a header section.
pub open spec fn line_end() -> Seq<u8> {
    seq![CR, LF]
}

/// The first line of a request: method, target and version with one space
/// between them, and a line break.
pub open spec fn request_line(method: Seq<u8>, target: Seq<u8>, version: Seq<u8>) -> Seq<u8> {
    method + seq![SP] + target + seq![SP] + version + line_end()
}

/// The first line of a response: version, code in decimal and reason
/// phrase with one space between them, and a line break.
pub open spec fn status_line(version: Seq<u8>, code: u16, reason: Seq<u8>) -> Seq<u8> {
    version + seq![SP] + decimal(code as nat) + seq![SP] + reason + line_end()
}

/// Whether `s` holds none of the bytes that part a start line or end it:
/// no space, no carriage return, no line feed.
pub open spec fn is_unbroken(s: Seq<u8>) -> bool {
    forall|k: int| 0 <= k < s.len() ==> !is_uri_breaker(#[trigger] s[k])
}

/// A token holds no byte that parts a start line or ends it.
pub proof fn lemma_token_is_unbroken(token: Seq<u8>)
    requires
        is_token_bytes(token),
    ensures
        is_unbroken(token),
{
    assert forall|k: int| 0 <= k < token.len() implies !is_uri_breaker(#[trigger] token[k]) by {
        assert(is_tchar(token[k]));
    }
}

/// A version of the protocol `HTTP` holds no byte that parts a start line
/// or ends it.
pub proof fn lemma_http_version_is_unbroken(version: Version)
    requires
        version.name() == http_name(),
    ensures
        is_unbroken(version@),
{
    let major = decimal(version.major() as nat);
    let minor = decimal(version.minor() as nat);
    lemma_decimal_is_canonical(version.major() as nat);
    lemma_decimal_is_canonical(version.minor() as nat);
    let start = http_name().len() + 1;
    assert forall|k: int| 0 <= k < version@.len() implies !is_uri_breaker(
        #[trigger] version@[k],
    ) by {
        if start <= k < start + major.len() {
            assert(version@[k] == major[k - start]);
        } else if k > start + major.len() {
            assert(version@[k] == minor[k - start - major.len() - 1]);
        }
    }
}

/// The first line of a request that is made of a token, a valid target and
/// a version without spaces and line breaks is one line of three parts: its
/// only line break is the one at its end, and its only spaces are the two
/// between the parts.
pub proof fn lemma_request_line_is_one_line(
    method: Seq<u8>,
    target: Seq<u8>,
    version: Seq<u8>,
    j: int,
)
    requires
        is_token_bytes(method),
        is_valid_uri(target),
        is_unbroken(version),
        0 <= j < request_line(method, target, version).len(),
    ensures
        request_line(method, target, version)[j] == SP <==> (j == method.len() || j
            == method.len() + 1 + target.len()),
        request_line(method, target, version)[j] == CR <==> j == request_line(
            method,
            target,
            version,
        ).len() - 2,
        request_line(method, target, version)[j] == LF <==> j == request_line(
            method,
            target,
            version,
        ).len() - 1,
{
    lemma_token_is_unbroken(method);
    let line = request_line(method, target, version);
    let target_start = method.len() + 1;
    let version_start = target_start + target.len() + 1;
    if j < method.len() {
        assert(!is_uri_breaker(method[j]));
    } else if target_start <= j < target_start + target.len() {
        assert(line[j] == target[j - target_start]);
        assert(!is_uri_breaker(target[j - target_start]));
    } else if version_start <= j < version_start + version.len() {
        assert(line[j] == version[j - version_start]);
        assert(!is_uri_breaker(version[j - version_start]));
    }
}

/// Writes a header section into a sink, line by line.
pub struct HttpBuilder {
    buffer: Sink,
}

impl HttpBuilder {
    /// The sink, with what was written so far.
    pub closed spec fn buffer(&self) -> Sink {
        self.buffer
    }

    /// Starts a request: writes its first line to `buffer`.
    ///
    /// Fails where the line does not fit; what was written of it is then
    /// lost with the buffer.
    pub fn request(buffer: Sink, method: Method, request_target: Uri, version: Version) -> (res:
        Result<Self, InsufficientSpaceError>)
        ensures
            res is Ok <==> request_line(method@, request_target@, version@).len() <= buffer.room(),
            res matches Ok(builder) ==> appended(
                buffer,
                builder.buffer(),
                request_line(method@, request_target@, version@),
            ),
    {
        let ghost start = buffer;
        let ghost m = method@;
        let ghost t = request_target@;
        let ghost v = version@;
        let ghost sp = seq![SP];
        let mut buffer = buffer;
        proof {
            lemma_appended_nothing(start);
        }
        let res = method.write_to(&mut buffer);
        proof {
            lemma_written_step(
                start,
                start,
                buffer,
                Seq::empty(),
                m,
                sp + t + sp + v + line_end(),
                res is Ok,
            );
            assert(Seq::<u8>::empty() + m =~= m);
            assert(m + (sp + t + sp + v + line_end()) =~= request_line(m, t, v));
        }
        if let Err(e) = res {
            return Err(e);
        }
        let ghost before = buffer;
        let res = buffer.try_put_u8(SP);
        proof {
            lemma_written_step(start, before, buffer, m, sp, t + sp + v + line_end(), res is Ok);
            assert(m + sp + (t + sp + v + line_end()) =~= request_line(m, t, v));
        }
        if let Err(e) = res {
            return Err(e);
        }
        let ghost before = buffer;
        let res = request_target.write_to(&mut buffer);
        proof {
            lemma_written_step(start, before, buffer, m + sp, t, sp + v + line_end(), res is Ok);
            assert(m + sp + t + (sp + v + line_end()) =~= request_line(m, t, v));
        }
        if let Err(e) = res {
            return Err(e);
        }
        let ghost before = buffer;
        let res = buffer.try_put_u8(SP);
        proof {
            lemma_written_step(start, before, buffer, m + sp + t, sp, v + line_end(), res is Ok);
            assert(m + sp + t + sp + (v + line_end()) =~= request_line(m, t, v));
        }
        if let Err(e) = res {
            return Err(e);
        }
        let ghost before = buffer;
        let res = version.write_to(&mut buffer);
        proof {
            lemma_written_step(start, before, buffer, m + sp + t + sp, v, line_end(), res is Ok);
        }
        if let Err(e) = res {
            return Err(e);
        }
        let ghost before = buffer;
        let crlf: [u8; 2] = [CR, LF];
        let res = buffer.try_put_slice(crlf.as_slice());
        proof {
            assert(crlf@ =~= line_end());
            lemma_written_step(
                start,
                before,
                buffer,
                m + sp + t + sp + v,
                line_end(),
                Seq::empty(),
                res is Ok,
            );
        }
        if let Err(e) = res {
            return Err(e);
        }
        Ok(Self { buffer })
    }

    /// Starts a response: writes its first line to `buffer`. The reason
    /// phrase is written as it is.
    ///
    /// Fails where the line does not fit; what was written of it is then
    /// lost with the buffer.
    pub fn response(buffer: Sink, version: Version, status: Status) -> (res: Result<
        Self,
        InsufficientSpaceError,
    >)
        ensures
            res is Ok <==> status_line(
                version@,
                status.code(),
                status.reason().spec_bytes(),
            ).len() <= buffer.room(),
            res matches Ok(builder) ==> appended(
                buffer,
                builder.buffer(),
                status_line(version@, status.code(), status.reason().spec_bytes()),
            ),
    {
        let ghost start = buffer;
        let ghost v = version@;
        let ghost c = decimal(status.code() as nat);
        let ghost r = status.reason().spec_bytes();
        let ghost sp = seq![SP];
        let ghost line = status_line(v, status.code(), r);
        let mut buffer = buffer;
        proof {
            lemma_appended_nothing(start);
        }
        let res = version.write_to(&mut buffer);
        proof {
            lemma_written_step(
                start,
                start,
                buffer,
                Seq::empty(),
                v,
                sp + c + sp + r + line_end(),
                res is Ok,
            );
            assert(Seq::<u8>::empty() + v =~= v);
            assert(v + (sp + c + sp + r + line_end()) =~= line);
        }
        if let Err(e) = res {
            return Err(e);
        }
        let ghost before = buffer;
        let res = buffer.try_put_u8(SP);
        proof {
            lemma_written_step(start, before, buffer, v, sp, c + sp + r + line_end(), res is Ok);
            assert(v + sp + (c + sp + r + line_end()) =~= line);
        }
        if let Err(e) = res {
            return Err(e);
        }
        let ghost before = buffer;
        let res = status.code().write_to(&mut buffer);
        proof {
            lemma_written_step(start, before, buffer, v + sp, c, sp + r + line_end(), res is Ok);
            assert(v + sp + c + (sp + r + line_end()) =~= line);
        }
        if let Err(e) = res {
            return Err(e);
        }
        let ghost before = buffer;
        let res = buffer.try_put_u8(SP);
        proof {
            lemma_written_step(start, before, buffer, v + sp + c, sp, r + line_end(), res is Ok);
            assert(v + sp + c + sp + (r + line_end()) =~= line);
        }
        if let Err(e) = res {
            return Err(e);
        }
        let ghost before = buffer;
        let res = buffer.try_put_slice(status.reason().as_bytes());
        proof {
            lemma_written_step(start, before, buffer, v + sp + c + sp, r, line_end(), res is Ok);
        }
        if let Err(e) = res {
            return Err(e);
        }
        let ghost before = buffer;
        let crlf: [u8; 2] = [CR, LF];
        let res = buffer.try_put_slice(crlf.as_slice());
        proof {
            assert(crlf@ =~= line_end());
            lemma_written_step(
                start,
                before,
                buffer,
                v + sp + c + sp + r,
                line_end(),
                Seq::empty(),
                res is Ok,
            );
        }
        if let Err(e) = res {
            return Err(e);
        }
        Ok(Self { buffer })
    }

    /// Writes one header line.
    ///
    /// Where the line does not fit, a part of it may have been written.
    pub fn header<'data, V: HttpWriteable>(&mut self, header: Header<'data, V>) -> (res: Result<
        &mut Self,
        InsufficientSpaceError,
    >)
        ensures
            res is Ok <==> header.line().len() <= old(self).buffer().room(),
            res matches Ok(builder) ==> *final(builder) == *final(self) && appended(
                old(self).buffer(),
                builder.buffer(),
                header.line(),
            ),
            res is Err ==> written(old(self).buffer(), final(self).buffer(), header.line(), false),
    {
        let res = header.write_to(&mut self.buffer);
        if let Err(e) = res {
            return Err(e);
        }
        Ok(self)
    }

    /// Ends the header section with an empty line and hands the sink back.
    ///
    /// Fails where the line break does not fit; the sink is then lost.
    pub fn finish(self) -> (res: Result<Sink, InsufficientSpaceError>)
        ensures
            res is Ok <==> 2 <= self.buffer().room(),
            res matches Ok(buffer) ==> appended(self.buffer(), buffer, line_end()),
    {
        let mut buffer = self.buffer;
        let crlf: [u8; 2] = [CR, LF];
        let res = buffer.try_put_slice(crlf.as_slice());
        proof {
            assert(crlf@ =~= line_end());
        }
        if let Err(e) = res {
            return Err(e);
        }
        Ok(buffer)
    }

    /// A builder that writes header lines behind what `buffer` holds, with
    /// no start line of its own.
    pub fn from_buffer(buffer: Sink) -> (builder: Self)
        ensures
            builder.buffer() == buffer,
    {
        Self { buffer }
    }

    /// Hands the sink back as it is, the section not ended.
    pub fn into_inner(self) -> (buffer: Sink)
        ensures
            buffer == self.buffer(),
    {
        self.buffer
    }
}

/// Starts a request: writes its first line to `buffer`.
pub fn request(buffer: Sink, method: Method, request_target: Uri, version: Version) -> (res: Result<
    HttpBuilder,
    InsufficientSpaceError,
>)
    ensures
        res is Ok <==> request_line(method@, request_target@, version@).len() <= buffer.room(),
        res matches Ok(builder) ==> appended(
            buffer,
            builder.buffer(),
            request_line(method@, request_target@, version@),
        ),
{
    HttpBuilder::request(buffer, method, request_target, version)
}

/// Starts a response: writes its first line to `buffer`.
pub fn response(buffer: Sink, version: Version, status: Status) -> (res: Result<
    HttpBuilder,
    InsufficientSpaceError,
>)
    ensures
        res is Ok <==> status_line(version@, status.code(), status.reason().spec_bytes()).len()
            <= buffer.room(),
        res matches Ok(builder) ==> appended(
            buffer,
            builder.buffer(),
            status_line(version@, status.code(), status.reason().spec_bytes()),
        ),
{
    HttpBuilder::response(buffer, version, status)
}

} // verus!

//! Header lines: a field name that is known to be a token, and a value.

use crate::crlf::{blank_follows, crlf_at, is_valid_value, CR, HTAB, LF, SP};
use crate::errors::{InsufficientSpaceError, InvalidHeaderError};
use crate::sink::{lemma_appended_nothing, lemma_written_step, written, Sink};
use crate::token::{is_tchar, is_token, is_token_bytes};
use crate::writable::HttpWriteable;
use vstd::pervasive::unreached;
use vstd::prelude::*;
use vstd::std_specs::cmp::PartialEqSpecImpl;
use vstd::string::StringSliceAdditionalSpecFns;

verus! {

/// The colon that ends a field name.
pub const COLON: u8 = 0x3a;

/// Whether `a` and `b` hold the same bytes.
fn same_bytes(a: &[u8], b: &[u8]) -> (same: bool)
    ensures
        same == (a@ == b@),
{
    if a.len() != b.len() {
        return false;
    }
    let mut i: usize = 0;
    while i < a.len()
        invariant
            a@.len() == b@.len(),
            i <= a@.len(),
            forall|j: int| 0 <= j < i ==> a@[j] == b@[j],
        decreases a@.len() - i,
    {
        if a[i] != b[i] {
            return false;
        }
        i += 1;
    }
    assert(a@ =~= b@);
    true
}

/// A field name that is a token of RFC 7230.
///
/// Every value of this type is one: it is checked when the value is made,
/// and there is no way round the check.
#[derive(Copy, Clone, Debug, Eq, Hash)]
pub struct CheckedField<'data>(&'data str);

impl<'data> PartialEq for CheckedField<'data> {
    /// Whether the two names are made of the same bytes.
    fn eq(&self, other: &Self) -> (equal: bool) {
        same_bytes(self.0.as_bytes(), other.0.as_bytes())
    }
}

impl<'data> PartialEqSpecImpl for CheckedField<'data> {
    open spec fn obeys_eq_spec() -> bool {
        true
    }

    open spec fn eq_spec(&self, other: &Self) -> bool {
        self@ == other@
    }
}

impl<'data> View for CheckedField<'data> {
    type V = Seq<u8>;

    /// The bytes of the name.
    open spec fn view(&self) -> Seq<u8> {
        self.as_str().spec_bytes()
    }
}

impl<'data> CheckedField<'data> {
    #[verifier::type_invariant]
    spec fn holds_a_token(self) -> bool {
        is_token_bytes(self.0.spec_bytes())
    }

    /// The name.
    pub closed spec fn spec_as_str(&self) -> &'data str {
        self.0
    }

    /// Takes `name` as a field name if it is a token.
    pub fn try_new(name: &'data str) -> (res: Result<Self, InvalidHeaderError>)
        ensures
            res is Ok <==> is_token_bytes(name.spec_bytes()),
            res matches Ok(field) ==> field.as_str() == name,
    {
        if !is_token(name) {
            return Err(InvalidHeaderError(()));
        }
        Ok(Self(name))
    }

    /// Takes `name`, which has to be a token, as a field name.
    pub fn new(name: &'data str) -> (field: Self)
        requires
            is_token_bytes(name.spec_bytes()),
        ensures
            field.as_str() == name,
    {
        match Self::try_new(name) {
            Ok(field) => field,
            Err(_) => unreached(),
        }
    }

    /// The name.
    #[verifier::when_used_as_spec(spec_as_str)]
    pub fn as_str(&self) -> (name: &'data str)
        ensures
            name == self.spec_as_str(),
            is_token_bytes(name.spec_bytes()),
    {
        proof {
            use_type_invariant(self);
        }
        self.0
    }
}

/// A header value that is written as it is.
///
/// A value made by `try_new` or `new` holds no line break but folds. One
/// made by `new_unchecked` holds whatever it was given.
#[derive(Copy, Clone, Debug, Eq, Hash)]
pub struct CheckedValue<'data>(&'data [u8]);

impl<'data> PartialEq for CheckedValue<'data> {
    /// Whether the two values are made of the same bytes.
    fn eq(&self, other: &Self) -> (equal: bool) {
        same_bytes(self.0, other.0)
    }
}

impl<'data> PartialEqSpecImpl for CheckedValue<'data> {
    open spec fn obeys_eq_spec() -> bool {
        true
    }

    open spec fn eq_spec(&self, other: &Self) -> bool {
        self@ == other@
    }
}

impl<'data> View for CheckedValue<'data> {
    type V = Seq<u8>;

    /// The bytes of the value.
    open spec fn view(&self) -> Seq<u8> {
        self.as_bytes()@
    }
}

impl<'data> CheckedValue<'data> {
    /// The bytes of the value.
    pub closed spec fn spec_as_bytes(&self) -> &'data [u8] {
        self.0
    }

    /// Takes `value` if each of its line breaks is a fold.
    pub fn try_new(value: &'data [u8]) -> (res: Result<Self, InvalidHeaderError>)
        ensures
            res is Ok <==> is_valid_value(value@),
            res matches Ok(checked) ==> checked.as_bytes() == value,
    {
        if !Self::check_valid_const(value) {
            return Err(InvalidHeaderError(()));
        }
        Ok(Self(value))
    }

    /// Takes `value`, each of whose line breaks has to be a fold.
    pub fn new(value: &'data [u8]) -> (checked: Self)
        requires
            is_valid_value(value@),
        ensures
            checked.as_bytes() == value,
    {
        match Self::try_new(value) {
            Ok(checked) => checked,
            Err(_) => unreached(),
        }
    }

    /// Takes `value` without a look at it.
    ///
    /// Where `value` holds a line break that is not a fold, a header
    /// written with it is not one header line. Nothing else can go wrong.
    pub fn new_unchecked(value: &'data [u8]) -> (unchecked: Self)
        ensures
            unchecked.as_bytes() == value,
    {
        Self(value)
    }

    /// The bytes of the value.
    #[verifier::when_used_as_spec(spec_as_bytes)]
    pub fn as_bytes(&self) -> (bytes: &'data [u8])
        ensures
            bytes == self.spec_as_bytes(),
    {
        self.0
    }

    /// Decides whether each line break of `value` is a fold.
    pub fn check_valid_const(value: &[u8]) -> (valid: bool)
        ensures
            valid == is_valid_value(value@),
    {
        let len = value.len();
        let mut prev: usize = 0;
        loop
            invariant
                len == value@.len(),
                prev <= len,
                forall|i: int| i < prev && #[trigger] crlf_at(value@, i) ==> blank_follows(value@, i),
            decreases len - prev,
        {
            let idx = match Self::memchr_const(CR, value, prev) {
                Some(idx) => idx,
                None => {
                    return true;
                },
            };
            if len - idx < 2 {
                return true;
            }
            if value[idx + 1] == LF {
                if len - idx > 2 && (value[idx + 2] == SP || value[idx + 2] == HTAB) {
                    prev = idx + 3;
                } else {
                    assert(crlf_at(value@, idx as int) && !blank_follows(value@, idx as int));
                    return false;
                }
            } else {
                prev = idx + 1;
            }
        }
    }

    /// The index of the first byte of `haystack` at or behind `start` that
    /// is `needle`.
    pub fn memchr_const(needle: u8, haystack: &[u8], start: usize) -> (found: Option<usize>)
        ensures
            match found {
                Some(idx) => {
                    &&& start <= idx < haystack@.len()
                    &&& haystack@[idx as int] == needle
                    &&& forall|j: int| start <= j < idx ==> haystack@[j] != needle
                },
                None => forall|j: int| start <= j < haystack@.len() ==> haystack@[j] != needle,
            },
    {
        let mut idx = start;
        while idx < haystack.len()
            invariant
                start <= idx,
                forall|j: int| start <= j < idx && j < haystack@.len() ==> haystack@[j] != needle,
            decreases haystack@.len() - idx,
        {
            if haystack[idx] == needle {
                return Some(idx);
            }
            idx += 1;
        }
        None
    }
}

/// Two values of the same bytes are the same value, whether they were
/// checked or not.
pub proof fn lemma_checked_value_is_its_bytes(a: CheckedValue, b: CheckedValue)
    requires
        a@ == b@,
    ensures
        a == b,
{
    assert(a.0 =~= b.0);
}

impl<'data> HttpWriteable for CheckedValue<'data> {
    open spec fn encoding(&self) -> Seq<u8> {
        self@
    }

    fn write_to(&self, buffer: &mut Sink) -> (res: Result<(), InsufficientSpaceError>) {
        buffer.try_put_slice(self.0)
    }
}

/// A header: a field name and a value.
#[derive(Copy, Clone, Debug)]
pub struct Header<'data, V> {
    pub(crate) field: CheckedField<'data>,
    pub(crate) value: V,
}

impl<'data, V> Header<'data, V> {
    /// The field name.
    pub closed spec fn field(&self) -> CheckedField<'data> {
        self.field
    }

    /// The value.
    pub closed spec fn value(&self) -> V {
        self.value
    }

    /// A header of the field `field`, which has to be a token.
    pub fn new(field: &'data str, value: V) -> (header: Self)
        requires
            is_token_bytes(field.spec_bytes()),
        ensures
            header.field().as_str() == field,
            header.value() == value,
    {
        let field = match CheckedField::try_new(field) {
            Ok(field) => field,
            Err(_) => unreached(),
        };
        Self { field, value }
    }

    /// A header of a field name that was checked before.
    pub fn checked_new(field: CheckedField<'data>, value: V) -> (header: Self)
        ensures
            header.field() == field,
            header.value() == value,
    {
        Self { field, value }
    }
}

/// The line of a header: the name, a colon and a space, the value as it
/// is written, and a line break.
pub open spec fn header_line(name: Seq<u8>, value: Seq<u8>) -> Seq<u8> {
    name + seq![COLON, SP] + value + seq![CR, LF]
}

/// A header whose name is a token and whose value is written with folds
/// only is one line: the one line break in it that is not a fold is the
/// one at its end.
pub proof fn lemma_header_line_is_one_line(name: Seq<u8>, value: Seq<u8>, j: int)
    requires
        is_token_bytes(name),
        is_valid_value(value),
        crlf_at(header_line(name, value), j),
        !blank_follows(header_line(name, value), j),
    ensures
        j == header_line(name, value).len() - 2,
{
    let line = header_line(name, value);
    let start = name.len() + 2;
    let end = start + value.len();
    if j < name.len() {
        assert(is_tchar(name[j]));
    } else if start <= j < end {
        assert(line[j] == value[j - start]);
        if j + 1 < end {
            assert(line[j + 1] == value[j + 1 - start]);
            assert(crlf_at(value, j - start));
            assert(blank_follows(value, j - start));
            assert(line[j + 2] == value[j + 2 - start]);
        }
    }
}

impl<'data, V: HttpWriteable> Header<'data, V> {
    /// The line that the header is written as.
    pub open spec fn line(&self) -> Seq<u8> {
        header_line(self.field()@, self.value().encoding())
    }

    /// A header of the field `field`, if that is a token.
    pub fn try_new(field: &'data str, value: V) -> (res: Result<Self, InvalidHeaderError>)
        ensures
            res is Ok <==> is_token_bytes(field.spec_bytes()),
            res matches Ok(header) ==> header.field().as_str() == field && header.value() == value,
    {
        let field = match CheckedField::try_new(field) {
            Ok(field) => field,
            Err(e) => {
                return Err(e);
            },
        };
        Ok(Self { field, value })
    }

    /// Writes the header line.
    pub fn write_to(&self, buf: &mut Sink) -> (res: Result<(), InsufficientSpaceError>)
        ensures
            written(*old(buf), *final(buf), self.line(), res is Ok),
    {
        let ghost start = *buf;
        let ghost name = self.field@;
        let ghost separator = seq![COLON, SP];
        let ghost value = self.value.encoding();
        let ghost end = seq![CR, LF];
        proof {
            lemma_appended_nothing(start);
        }
        let res = buf.try_put_slice(self.field.as_str().as_bytes());
        proof {
            lemma_written_step(
                start,
                start,
                *buf,
                Seq::empty(),
                name,
                separator + value + end,
                res is Ok,
            );
            assert(Seq::<u8>::empty() + name =~= name);
            assert(name + (separator + value + end) =~= self.line());
        }
        if res.is_err() {
            return res;
        }
        let ghost before = *buf;
        let separator_bytes: [u8; 2] = [COLON, SP];
        let res = buf.try_put_slice(separator_bytes.as_slice());
        proof {
            assert(separator_bytes@ =~= separator);
            lemma_written_step(start, before, *buf, name, separator, value + end, res is Ok);
            assert(name + separator + (value + end) =~= self.line());
        }
        if res.is_err() {
            return res;
        }
        let ghost before = *buf;
        let res = self.value.write_to(buf);
        proof {
            lemma_written_step(start, before, *buf, name + separator, value, end, res is Ok);
        }
        if res.is_err() {
            return res;
        }
        let ghost before = *buf;
        let end_bytes: [u8; 2] = [CR, LF];
        let res = buf.try_put_slice(end_bytes.as_slice());
        proof {
            assert(end_bytes@ =~= end);
            lemma_written_step(
                start,
                before,
                *buf,
                name + separator + value,
                end,
                Seq::empty(),
                res is Ok,
            );
        }
        res
    }
}

} // verus!

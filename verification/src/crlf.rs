//! Line breaks inside header values.
//!
//! A value that holds `CR LF` could end its header line early and start
//! another, unless a space or a tab follows, which makes the line break a
//! fold of the same line. The scanner of this module finds the line breaks
//! that stand outside quoted text.

use crate::search::is_one_of;
use vstd::prelude::*;

verus! {

/// Carriage return.
pub const CR: u8 = 0x0d;

/// Line feed.
pub const LF: u8 = 0x0a;

/// Space.
pub const SP: u8 = 0x20;

/// Horizontal tab.
pub const HTAB: u8 = 0x09;

/// Backslash, which escapes the byte behind it.
pub const BACKSLASH: u8 = 0x5c;

/// Double quote, which opens or closes quoted text.
pub const DQUOTE: u8 = 0x22;

/// What the scanner knows when it stands in front of a byte.
pub struct ScanState {
    /// The byte in front is escaped by a backslash and will be passed over.
    pub escaped: bool,
    /// The byte in front stands inside quoted text.
    pub quoted: bool,
}

/// The state behind byte `b`, read in state `state`.
pub open spec fn scan_step(state: ScanState, b: u8) -> ScanState {
    if state.escaped {
        ScanState { escaped: false, quoted: state.quoted }
    } else if b == BACKSLASH {
        ScanState { escaped: true, quoted: state.quoted }
    } else if b == DQUOTE {
        ScanState { escaped: false, quoted: !state.quoted }
    } else {
        state
    }
}

/// The state in which the scanner stands in front of byte `i` of `s`.
pub open spec fn scan_state(s: Seq<u8>, i: int) -> ScanState
    decreases i,
{
    if i <= 0 {
        ScanState { escaped: false, quoted: false }
    } else {
        scan_step(scan_state(s, i - 1), s[i - 1])
    }
}

/// A byte that can change the scanner's state or start a line break.
pub open spec fn is_special(b: u8) -> bool {
    is_one_of(BACKSLASH, DQUOTE, CR, b)
}

/// Whether `CR LF` stands at `i`.
pub open spec fn crlf_at(s: Seq<u8>, i: int) -> bool {
    0 <= i && i + 1 < s.len() && s[i] == CR && s[i + 1] == LF
}

/// Whether a space or a tab stands two bytes behind `i`, which makes a line
/// break at `i` a fold.
pub open spec fn blank_follows(s: Seq<u8>, i: int) -> bool {
    0 <= i && i + 2 < s.len() && (s[i + 2] == SP || s[i + 2] == HTAB)
}

/// Whether the scanner finds a line break at `i`: `CR LF` outside quoted
/// text, the `CR` not escaped.
pub open spec fn unquoted_crlf_at(s: Seq<u8>, i: int) -> bool {
    &&& crlf_at(s, i)
    &&& !scan_state(s, i).escaped
    &&& !scan_state(s, i).quoted
}

/// Whether every line break of `s` is a fold: no `CR LF` without a space or
/// a tab behind it, quoted or not.
pub open spec fn is_valid_value(s: Seq<u8>) -> bool {
    forall|i: int| #[trigger] crlf_at(s, i) ==> blank_follows(s, i)
}

/// Over bytes that are not special the scanner's state stays as it is,
/// provided the first of them is not escaped.
pub proof fn lemma_scan_state_stable(s: Seq<u8>, from: int, to: int)
    requires
        0 <= from <= to <= s.len(),
        !scan_state(s, from).escaped,
        forall|j: int| from <= j < to ==> !is_special(#[trigger] s[j]),
    ensures
        scan_state(s, to) == scan_state(s, from),
    decreases to - from,
{
    if from < to {
        lemma_scan_state_stable(s, from, to - 1);
        assert(!is_special(s[to - 1]));
    }
}

/// In a byte string without quotes and backslashes nothing is quoted or
/// escaped: the scanner finds every line break.
pub proof fn lemma_plain_text_is_unquoted(s: Seq<u8>, i: int)
    requires
        forall|j: int| 0 <= j < s.len() ==> #[trigger] s[j] != DQUOTE && s[j] != BACKSLASH,
        0 <= i <= s.len(),
    ensures
        !scan_state(s, i).escaped,
        !scan_state(s, i).quoted,
    decreases i,
{
    if i > 0 {
        lemma_plain_text_is_unquoted(s, i - 1);
        assert(s[i - 1] != DQUOTE && s[i - 1] != BACKSLASH);
    }
}

/// Finds the line breaks of a byte string that stand outside quoted text,
/// from the left.
pub struct UnquotedCRLFIterator<'a> {
    bytes: &'a [u8],
    inquotes: bool,
    offset: usize,
}

impl<'a> UnquotedCRLFIterator<'a> {
    /// The bytes that are searched.
    pub closed spec fn haystack(&self) -> Seq<u8> {
        self.bytes@
    }

    /// The index from which the search goes on.
    pub closed spec fn position(&self) -> int {
        self.offset as int
    }

    /// Whether the iterator takes the byte at its position to be quoted.
    pub closed spec fn in_quotes(&self) -> bool {
        self.inquotes
    }

    /// The iterator stands inside its bytes, in front of a byte that is not
    /// escaped, and knows whether that byte is quoted.
    pub open spec fn wf(&self) -> bool {
        &&& 0 <= self.position() <= self.haystack().len()
        &&& self.in_quotes() == scan_state(self.haystack(), self.position()).quoted
        &&& self.position() < self.haystack().len() ==> !scan_state(
            self.haystack(),
            self.position(),
        ).escaped
    }

    /// The index of the first special byte at or behind the position.
    fn find_next(&self) -> (found: Option<usize>)
        requires
            self.wf(),
        ensures
            match found {
                Some(pos) => {
                    &&& self.offset <= pos < self.bytes@.len()
                    &&& is_special(self.bytes@[pos as int])
                    &&& forall|j: int|
                        self.offset <= j < pos ==> !is_special(#[trigger] self.bytes@[j])
                },
                None => forall|j: int|
                    self.offset <= j < self.bytes@.len() ==> !is_special(
                        #[trigger] self.bytes@[j],
                    ),
            },
    {
        let rest = &self.bytes[self.offset..self.bytes.len()];
        let found = memchr::memchr3(BACKSLASH, DQUOTE, CR, rest);
        match found {
            Some(pos) => {
                assert forall|j: int| self.offset <= j < pos + self.offset implies !is_special(
                    #[trigger] self.bytes@[j],
                ) by {
                    assert(!is_special(rest@[j - self.offset]));
                }
                Some(pos + self.offset)
            },
            None => {
                assert forall|j: int| self.offset <= j < self.bytes@.len() implies !is_special(
                    #[trigger] self.bytes@[j],
                ) by {
                    assert(!is_special(rest@[j - self.offset]));
                }
                None
            },
        }
    }

    /// Moves the position to `amount`, or to the end where `amount` lies
    /// behind it.
    fn advance_to(&mut self, amount: usize)
        ensures
            final(self).bytes == old(self).bytes,
            final(self).inquotes == old(self).inquotes,
            final(self).offset == if amount <= old(self).bytes@.len() {
                amount
            } else {
                old(self).bytes@.len() as usize
            },
    {
        let len = self.bytes.len();
        self.offset = if amount <= len {
            amount
        } else {
            len
        };
    }

    /// Finds the next line break outside quoted text and moves behind it.
    ///
    /// Returns the index of its `CR`, or `None` where no such line break is
    /// left.
    pub fn next(&mut self) -> (found: Option<usize>)
        requires
            old(self).wf(),
        ensures
            final(self).wf(),
            final(self).haystack() == old(self).haystack(),
            old(self).position() <= final(self).position(),
            match found {
                Some(pos) => {
                    &&& old(self).position() <= pos
                    &&& unquoted_crlf_at(old(self).haystack(), pos as int)
                    &&& forall|j: int|
                        old(self).position() <= j < pos ==> !unquoted_crlf_at(
                            old(self).haystack(),
                            j,
                        )
                    &&& final(self).position() == pos + 2
                },
                None => {
                    &&& forall|j: int|
                        old(self).position() <= j ==> !unquoted_crlf_at(old(self).haystack(), j)
                    &&& final(self).position() == old(self).haystack().len()
                },
            },
    {
        let len = self.bytes.len();
        loop
            invariant
                self.wf(),
                self.bytes == old(self).bytes,
                len == self.bytes@.len(),
                old(self).offset <= self.offset,
                forall|j: int|
                    old(self).offset <= j < self.offset ==> !unquoted_crlf_at(self.bytes@, j),
            decreases self.bytes@.len() - self.offset,
        {
            let pos = match self.find_next() {
                Some(pos) => pos,
                None => {
                    // Nothing is left to find, from here or from the end.
                    proof {
                        if self.offset < len {
                            lemma_scan_state_stable(self.bytes@, self.offset as int, len as int);
                        }
                    }
                    self.advance_to(len);
                    return None;
                },
            };
            proof {
                lemma_scan_state_stable(self.bytes@, self.offset as int, pos as int);
            }
            let b = self.bytes[pos];
            if b == BACKSLASH {
                // The byte behind the backslash is passed over unread.
                let escaped = pos + 1;
                assert(scan_state(self.bytes@, escaped as int).escaped);
                if escaped < len {
                    assert(!scan_state(self.bytes@, escaped + 1).escaped);
                    self.advance_to(escaped + 1);
                } else {
                    self.advance_to(escaped);
                }
            } else if b == DQUOTE {
                self.inquotes = !self.inquotes;
                self.advance_to(pos + 1);
            } else if !self.inquotes && pos + 1 < len && self.bytes[pos + 1] == LF {
                assert(scan_state(self.bytes@, pos + 1) == scan_state(self.bytes@, pos as int));
                assert(scan_state(self.bytes@, pos + 2) == scan_state(self.bytes@, pos + 1));
                self.advance_to(pos + 2);
                return Some(pos);
            } else {
                self.advance_to(pos + 1);
            }
        }
    }
}

/// Starts a search for the line breaks of `bytes` that stand outside quoted
/// text.
pub fn find_unquoted_crlf(bytes: &[u8]) -> (it: UnquotedCRLFIterator<'_>)
    ensures
        it.wf(),
        it.haystack() == bytes@,
        it.position() == 0,
        !it.in_quotes(),
{
    UnquotedCRLFIterator { bytes, inquotes: false, offset: 0 }
}

} // verus!

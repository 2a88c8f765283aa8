//! The token grammar of RFC 7230, which header field names and method
//! names obey.

use vstd::prelude::*;
use vstd::string::StringSliceAdditionalSpecFns;

verus! {

/// Whether `b` is a `tchar`: an ASCII letter, an ASCII digit, or one of
/// ``! # $ % & ' * + - . ^ _ ` | ~``.
pub open spec fn is_tchar(b: u8) -> bool {
    ||| 0x30 <= b <= 0x39  // 0 to 9
    ||| 0x41 <= b <= 0x5a  // A to Z
    ||| 0x61 <= b <= 0x7a  // a to z
    ||| b == 0x21  // !
    ||| b == 0x23  // #
    ||| b == 0x24  // $
    ||| b == 0x25  // %
    ||| b == 0x26  // &
    ||| b == 0x27  // '
    ||| b == 0x2a  // *
    ||| b == 0x2b  // +
    ||| b == 0x2d  // -
    ||| b == 0x2e  // .
    ||| b == 0x5e  // ^
    ||| b == 0x5f  // _
    ||| b == 0x60  // `
    ||| b == 0x7c  // |
    ||| b == 0x7e  // ~
}

/// Whether `s` is a token: not empty, and made of `tchar` bytes only.
pub open spec fn is_token_bytes(s: Seq<u8>) -> bool {
    s.len() > 0 && forall|i: int| 0 <= i < s.len() ==> is_tchar(#[trigger] s[i])
}

/// Bit `b` is set exactly where byte `b` is a `tchar`, for `b` below 64.
pub const TCHAR_MASK_LOW: u64 = 0x03FF_6CFA_0000_0000;

/// Bit `b - 64` is set exactly where byte `b` is a `tchar`, for `b` from 64
/// to 127.
pub const TCHAR_MASK_HIGH: u64 = 0x57FF_FFFF_C7FF_FFFE;

/// Tests one byte against the two masks.
pub fn is_allowed(byte: u8) -> (allowed: bool)
    ensures
        allowed == is_tchar(byte),
{
    if byte < 64 {
        assert(((0x03FF_6CFA_0000_0000u64 >> (byte as u64)) & 1 == 1) == is_tchar(byte))
            by (bit_vector)
            requires
                byte < 64,
        ;
        (TCHAR_MASK_LOW >> (byte as u64)) & 1 == 1
    } else if byte < 128 {
        assert(((0x57FF_FFFF_C7FF_FFFEu64 >> ((byte & 63) as u64)) & 1 == 1) == is_tchar(byte))
            by (bit_vector)
            requires
                64 <= byte < 128,
        ;
        assert(byte & 63 < 64) by (bit_vector);
        (TCHAR_MASK_HIGH >> ((byte & 63) as u64)) & 1 == 1
    } else {
        false
    }
}

/// Decides whether `token` is a token of RFC 7230.
pub fn is_token(token: &str) -> (valid: bool)
    ensures
        valid == is_token_bytes(token.spec_bytes()),
{
    let bytes = token.as_bytes();
    let mut i: usize = 0;
    while i < bytes.len()
        invariant
            bytes@ == token.spec_bytes(),
            i <= bytes@.len(),
            forall|j: int| 0 <= j < i ==> is_tchar(#[trigger] bytes@[j]),
        decreases bytes@.len() - i,
    {
        if !is_allowed(bytes[i]) {
            assert(!is_tchar(bytes@[i as int]));
            return false;
        }
        i += 1;
    }
    !bytes.is_empty()
}

} // verus!

//! Integers as decimal text: the digits in ASCII, the most significant
//! first, behind a minus sign where the integer is negative.

use crate::errors::InsufficientSpaceError;
use crate::sink::{lemma_written_after, lemma_written_first_failed, written, Sink};
use vstd::prelude::*;

verus! {

/// The ASCII digit `0`.
pub const ZERO: u8 = 0x30;

/// The minus sign.
pub const MINUS: u8 = 0x2d;

/// The number of digits that the largest `u128` has.
pub const MAX_DIGITS: usize = 39;

/// The decimal digits of `n` in ASCII, the most significant first: no
/// leading zero, and the single digit `0` for zero.
pub open spec fn decimal(n: nat) -> Seq<u8>
    decreases n,
{
    if n < 10 {
        seq![(ZERO + n) as u8]
    } else {
        decimal(n / 10).push((ZERO + n % 10) as u8)
    }
}

/// The decimal text of `v`: a minus sign where `v` is negative, then the
/// digits of its magnitude.
pub open spec fn signed_decimal(v: int) -> Seq<u8> {
    if v < 0 {
        seq![MINUS] + decimal((-v) as nat)
    } else {
        decimal(v as nat)
    }
}

/// The number that the ASCII digits `digits` stand for.
pub open spec fn decimal_value(digits: Seq<u8>) -> nat
    decreases digits.len(),
{
    if digits.len() == 0 {
        0
    } else {
        10 * decimal_value(digits.drop_last()) + (digits.last() - ZERO) as nat
    }
}

/// The number that `text` stands for: digits, or a minus sign and digits.
pub open spec fn signed_decimal_value(text: Seq<u8>) -> int {
    if text.len() > 0 && text[0] == MINUS {
        -(decimal_value(text.skip(1)) as int)
    } else {
        decimal_value(text) as int
    }
}

/// Ten to the power of `k`.
pub open spec fn pow10(k: nat) -> nat
    decreases k,
{
    if k == 0 {
        1
    } else {
        10 * pow10((k - 1) as nat)
    }
}

/// The text of a number is made of digits only, has at least one of them,
/// and starts with `0` only where the number is zero.
pub proof fn lemma_decimal_is_canonical(n: nat)
    ensures
        decimal(n).len() >= 1,
        forall|i: int| 0 <= i < decimal(n).len() ==> ZERO <= #[trigger] decimal(n)[i] <= ZERO + 9,
        decimal(n)[0] == ZERO <==> n == 0,
    decreases n,
{
    if n >= 10 {
        lemma_decimal_is_canonical(n / 10);
    }
}

/// The text of an integer is a minus sign or none, and digits.
pub proof fn lemma_signed_decimal_is_canonical(v: int)
    ensures
        signed_decimal(v).len() >= 1,
        forall|i: int|
            0 <= i < signed_decimal(v).len() ==> {
                ||| ZERO <= #[trigger] signed_decimal(v)[i] <= ZERO + 9
                ||| (i == 0 && v < 0 && signed_decimal(v)[i] == MINUS)
            },
{
    if v < 0 {
        lemma_decimal_is_canonical((-v) as nat);
    } else {
        lemma_decimal_is_canonical(v as nat);
    }
}

/// The last digit of a number is its remainder by ten, and the digits in
/// front of it are those of its tenth.
pub proof fn lemma_decimal_last_digit(n: nat)
    requires
        n > 0,
    ensures
        decimal(n).len() >= 1,
        decimal(n).last() == ZERO + n % 10,
        n >= 10 ==> decimal(n).drop_last() == decimal(n / 10),
        n < 10 ==> decimal(n).len() == 1,
{
    if n >= 10 {
        assert(decimal(n).drop_last() =~= decimal(n / 10));
    }
}

/// Reading the digits of a number gives the number back.
pub proof fn lemma_decimal_round_trip(n: nat)
    ensures
        decimal_value(decimal(n)) == n,
    decreases n,
{
    if n < 10 {
        let d = decimal(n);
        assert(d.drop_last() =~= Seq::<u8>::empty());
        assert(decimal_value(d.drop_last()) == 0);
    } else {
        let d = decimal(n);
        assert(d.drop_last() =~= decimal(n / 10));
        lemma_decimal_round_trip(n / 10);
    }
}

/// Reading the text of an integer, negative or not, gives the integer back.
pub proof fn lemma_signed_decimal_round_trip(v: int)
    ensures
        signed_decimal_value(signed_decimal(v)) == v,
{
    if v < 0 {
        let text = signed_decimal(v);
        assert(text.skip(1) =~= decimal((-v) as nat));
        lemma_decimal_round_trip((-v) as nat);
    } else {
        lemma_decimal_is_canonical(v as nat);
        lemma_decimal_round_trip(v as nat);
    }
}

/// A number below ten to the power of `k` has at most `k` digits.
pub proof fn lemma_decimal_len_bound(n: nat, k: nat)
    requires
        k >= 1,
        n < pow10(k),
    ensures
        decimal(n).len() <= k,
    decreases k,
{
    if n >= 10 {
        reveal_with_fuel(pow10, 2);
        lemma_decimal_len_bound(n / 10, (k - 1) as nat);
    }
}

/// A number of `k` digits lies below ten to the power of `k`, and not below
/// ten to the power of `k - 1` unless it is zero.
pub proof fn lemma_decimal_len_brackets(n: nat)
    ensures
        n < pow10(decimal(n).len()),
        n > 0 ==> pow10((decimal(n).len() - 1) as nat) <= n,
    decreases n,
{
    reveal_with_fuel(pow10, 2);
    if n >= 10 {
        lemma_decimal_len_brackets(n / 10);
    }
}

/// No `u128` has more than `MAX_DIGITS` digits.
pub proof fn lemma_decimal_len_u128(n: u128)
    ensures
        decimal(n as nat).len() <= MAX_DIGITS,
{
    assert(pow10(39) == 1_000_000_000_000_000_000_000_000_000_000_000_000_000) by {
        reveal_with_fuel(pow10, 40);
    }
    lemma_decimal_len_bound(n as nat, 39);
}

/// The number of decimal digits of `x`; one for zero.
pub fn ilog10(x: u128) -> (digits: usize)
    ensures
        digits == decimal(x as nat).len(),
{
    if x == 0 {
        return 1;
    }
    let mut rest = x;
    let mut result: usize = 0;
    proof {
        lemma_decimal_len_u128(x);
    }
    while rest != 0
        invariant
            decimal(x as nat).len() <= MAX_DIGITS,
            rest != 0 ==> result + decimal(rest as nat).len() == decimal(x as nat).len(),
            rest == 0 ==> result == decimal(x as nat).len(),
        decreases rest,
    {
        result += 1;
        rest /= 10;
    }
    result
}

/// Reverses `range` in place.
pub fn reverse<T>(range: &mut [T])
    ensures
        final(range)@ == old(range)@.reverse(),
{
    let len = range.len();
    if len < 2 {
        assert(range@ =~= range@.reverse());
        return ;
    }
    let (head, tail) = range.split_at_mut(len / 2);
    let mut i: usize = 0;
    let ghost head0 = head@;
    let ghost tail0 = tail@;
    let tail_len = tail.len();
    let head_len = head.len();
    while i < head_len
        invariant
            i <= head_len,
            head_len == head@.len(),
            tail_len == tail@.len(),
            head_len <= tail_len,
            head@.len() == head0.len(),
            tail@.len() == tail0.len(),
            forall|k: int| 0 <= k < i ==> #[trigger] head@[k] == tail0[tail_len - 1 - k],
            forall|k: int|
                tail_len - i <= k < tail_len ==> #[trigger] tail@[k] == head0[tail_len - 1 - k],
            forall|k: int| i <= k < head_len ==> #[trigger] head@[k] == head0[k],
            forall|k: int| 0 <= k < tail_len - i ==> #[trigger] tail@[k] == tail0[k],
        decreases head_len - i,
    {
        core::mem::swap(&mut head[i], &mut tail[tail_len - 1 - i]);
        i += 1;
    }
    proof {
        let swapped = head@ + tail@;
        let mirrored = old(range)@.reverse();
        assert(head0 == old(range)@.subrange(0, head_len as int));
        assert(tail0 == old(range)@.subrange(head_len as int, len as int));
        assert forall|k: int| 0 <= k < len implies swapped[k] == mirrored[k] by {
            if k < head_len {
                assert(swapped[k] == head@[k]);
            } else {
                assert(swapped[k] == tail@[k - head_len]);
            }
        }
        assert(swapped =~= mirrored);
    }
}

/// Writes the decimal digits of `value`.
pub fn write_decimal(value: u128, buffer: &mut Sink) -> (res: Result<(), InsufficientSpaceError>)
    ensures
        written(*old(buffer), *final(buffer), decimal(value as nat), res is Ok),
        res is Err ==> *final(buffer) == *old(buffer),
{
    if value == 0 {
        return buffer.try_put_u8(ZERO);
    }
    let mut bytes = [0u8;MAX_DIGITS];
    let mut rest = value;
    let mut i: usize = 0;
    let ghost text = decimal(value as nat);
    proof {
        lemma_decimal_len_u128(value);
        assert(text.take(text.len() as int) =~= text);
    }
    while rest != 0
        invariant
            text == decimal(value as nat),
            text.len() <= MAX_DIGITS,
            i <= text.len(),
            rest != 0 ==> decimal(rest as nat) == text.take(text.len() - i),
            rest == 0 ==> i == text.len(),
            forall|k: int| 0 <= k < i ==> bytes@[k] == text[text.len() - 1 - k],
        decreases rest,
    {
        proof {
            lemma_decimal_last_digit(rest as nat);
            if rest >= 10 {
                assert(text.take(text.len() - i).drop_last() =~= text.take(text.len() - i - 1));
            }
        }
        let rem = rest % 10;
        rest /= 10;
        bytes[i] = ZERO + (rem as u8);
        i += 1;
    }
    let whole: &mut [u8] = &mut bytes;
    let (digits, _) = whole.split_at_mut(i);
    reverse(digits);
    assert(digits@ =~= text);
    buffer.try_put_slice(digits)
}

/// Writes the decimal text of `value`: a minus sign where it is negative,
/// then the digits of its magnitude.
pub fn write_signed_decimal(value: i128, buffer: &mut Sink) -> (res: Result<
    (),
    InsufficientSpaceError,
>)
    ensures
        written(*old(buffer), *final(buffer), signed_decimal(value as int), res is Ok),
{
    let mut magnitude = #[verifier::truncate] (value as u128);
    if value < 0 {
        let res = buffer.try_put_u8(MINUS);
        if res.is_err() {
            proof {
                lemma_written_first_failed(
                    *old(buffer),
                    *buffer,
                    seq![MINUS],
                    decimal((-value) as nat),
                );
            }
            return res;
        }
        // The magnitude of the least value has no positive counterpart to
        // negate into, so the sign is turned on the unsigned bits.
        assert(!(value as u128) < u128::MAX && !(value as u128) + 1 == -value) by (bit_vector)
            requires
                value < 0,
        ;
        magnitude = !magnitude + 1;
    }
    let ghost middle = *buffer;
    let res = write_decimal(magnitude, buffer);
    proof {
        if value < 0 {
            lemma_written_after(
                *old(buffer),
                middle,
                *buffer,
                seq![MINUS],
                decimal((-value) as nat),
                res is Ok,
            );
        }
    }
    res
}

} // verus!

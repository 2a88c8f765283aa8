//! Byte search, done by the `memchr` crate.

use vstd::prelude::*;

verus! {

/// Whether `found` is what a search for the first of three bytes in
/// `haystack` has to return.
pub open spec fn is_first_of_three(
    needle1: u8,
    needle2: u8,
    needle3: u8,
    haystack: Seq<u8>,
    found: Option<usize>,
) -> bool {
    match found {
        Some(pos) => {
            &&& pos < haystack.len()
            &&& is_one_of(needle1, needle2, needle3, haystack[pos as int])
            &&& forall|j: int|
                0 <= j < pos ==> !is_one_of(needle1, needle2, needle3, #[trigger] haystack[j])
        },
        None => forall|j: int|
            0 <= j < haystack.len() ==> !is_one_of(
                needle1,
                needle2,
                needle3,
                #[trigger] haystack[j],
            ),
    }
}

/// Whether `b` is one of the three needles.
pub open spec fn is_one_of(needle1: u8, needle2: u8, needle3: u8, b: u8) -> bool {
    b == needle1 || b == needle2 || b == needle3
}

/// `memchr::memchr3` returns the index of the first byte of `haystack` that
/// equals one of the three needles, and `None` where no byte does.
pub assume_specification[ memchr::memchr3 ](
    needle1: u8,
    needle2: u8,
    needle3: u8,
    haystack: &[u8],
) -> (found: Option<usize>)
    ensures
        is_first_of_three(needle1, needle2, needle3, haystack@, found),
;

} // verus!

//! What a byte string is written as when nothing is known of it: itself,
//! with a tab behind each line break that the scanner finds outside quoted
//! text and that no space or tab follows.
//!
//! A line break inside quoted text, or with its `CR` behind a backslash, is
//! left as it is. A quote that is never closed therefore keeps every line
//! break behind it from being folded. The quotes are read for the sake of
//! the text, not as a protection: what is written is sure to hold folds
//! only where the byte string holds no quote and no backslash
//! (`lemma_folded_plain_is_valid`); a value that must hold folds only, come
//! what may, is a `CheckedValue`.

use crate::crlf::{
    blank_follows, crlf_at, is_valid_value, lemma_plain_text_is_unquoted, scan_state,
    unquoted_crlf_at, BACKSLASH, CR, DQUOTE, HTAB, LF,
};
use vstd::prelude::*;

verus! {

/// Whether the encoder puts a tab behind the line break at `i`: the
/// scanner finds it, and no space or tab follows it.
pub open spec fn needs_tab_at(s: Seq<u8>, i: int) -> bool {
    unquoted_crlf_at(s, i) && !blank_follows(s, i)
}

/// What the first `n` bytes of `s` are written as: the bytes themselves,
/// and a tab behind each line break among them that needs one.
pub open spec fn folded_prefix(s: Seq<u8>, n: int) -> Seq<u8>
    decreases n,
{
    if n <= 0 {
        Seq::empty()
    } else {
        let bytes = folded_prefix(s, n - 1).push(s[n - 1]);
        if needs_tab_at(s, n - 2) {
            bytes.push(HTAB)
        } else {
            bytes
        }
    }
}

/// What the byte string `s` is written as when nothing is known of it.
pub open spec fn folded(s: Seq<u8>) -> Seq<u8> {
    folded_prefix(s, s.len() as int)
}

/// The index at which byte `i` of `s` stands in `folded(s)`.
pub open spec fn folded_index(s: Seq<u8>, i: int) -> int {
    folded_prefix(s, i).len() as int
}

/// The byte of `s` that the byte at `j` of the first `n` bytes, as they are
/// written, belongs to: the byte itself, or the one that a tab was put
/// behind.
pub open spec fn folded_origin(s: Seq<u8>, n: int, j: int) -> int
    decreases n,
{
    if n <= 0 {
        -1
    } else if j >= folded_index(s, n - 1) {
        n - 1
    } else {
        folded_origin(s, n - 1, j)
    }
}

/// One more byte of `s` is written as itself, with a tab behind it where
/// it ends a line break that needs one.
pub proof fn lemma_folded_prefix_step(s: Seq<u8>, n: int)
    requires
        1 <= n,
    ensures
        !needs_tab_at(s, n - 2) ==> folded_prefix(s, n) == folded_prefix(s, n - 1).push(s[n - 1]),
        needs_tab_at(s, n - 2) ==> folded_prefix(s, n) == folded_prefix(s, n - 1).push(
            s[n - 1],
        ).push(HTAB),
{
}

/// Where no line break that ends between `from` and `to` needs a tab, the
/// bytes from `from` to `to` are written as they are.
pub proof fn lemma_folded_prefix_plain(s: Seq<u8>, from: int, to: int)
    requires
        0 <= from <= to <= s.len(),
        forall|j: int| from - 1 <= j < to - 1 ==> !#[trigger] needs_tab_at(s, j),
    ensures
        folded_prefix(s, to) == folded_prefix(s, from) + s.subrange(from, to),
    decreases to - from,
{
    if from < to {
        lemma_folded_prefix_plain(s, from, to - 1);
        assert(!needs_tab_at(s, to - 2));
        assert(s.subrange(from, to) =~= s.subrange(from, to - 1).push(s[to - 1]));
        assert(folded_prefix(s, to) =~= folded_prefix(s, from) + s.subrange(from, to));
    } else {
        assert(folded_prefix(s, to) =~= folded_prefix(s, from) + s.subrange(from, to));
    }
}

/// What a shorter prefix is written as starts what a longer one is written
/// as.
pub proof fn lemma_folded_prefix_grows(s: Seq<u8>, shorter: int, longer: int)
    requires
        0 <= shorter <= longer,
    ensures
        folded_prefix(s, shorter).len() <= folded_prefix(s, longer).len(),
        folded_prefix(s, longer).take(folded_prefix(s, shorter).len() as int) == folded_prefix(
            s,
            shorter,
        ),
    decreases longer - shorter,
{
    let short = folded_prefix(s, shorter);
    if shorter < longer {
        lemma_folded_prefix_grows(s, shorter, longer - 1);
        let before = folded_prefix(s, longer - 1);
        assert(before.push(s[longer - 1]).take(short.len() as int) =~= before.take(
            short.len() as int,
        ));
        assert(before.push(s[longer - 1]).push(HTAB).take(short.len() as int) =~= before.take(
            short.len() as int,
        ));
    } else {
        assert(short.take(short.len() as int) =~= short);
    }
}

/// Every byte of `s` stands in `folded(s)`, at its index.
pub proof fn lemma_folded_keeps_bytes(s: Seq<u8>, i: int)
    requires
        0 <= i < s.len(),
    ensures
        0 <= folded_index(s, i) < folded(s).len(),
        folded(s)[folded_index(s, i)] == s[i],
{
    lemma_folded_prefix_step(s, i + 1);
    lemma_folded_prefix_grows(s, i + 1, s.len() as int);
    let next = folded_prefix(s, i + 1);
    assert(next[folded_index(s, i)] == s[i]);
    assert(folded(s).take(next.len() as int)[folded_index(s, i)] == s[i]);
}

/// Each byte that is written is a byte of `s` at its index, or the tab
/// behind a line break that needs one.
pub proof fn lemma_folded_origin(s: Seq<u8>, n: int, j: int)
    requires
        0 <= n <= s.len(),
        0 <= j < folded_prefix(s, n).len(),
    ensures
        0 <= folded_origin(s, n, j) < n,
        j == folded_index(s, folded_origin(s, n, j)) || (j == folded_index(
            s,
            folded_origin(s, n, j),
        ) + 1 && needs_tab_at(s, folded_origin(s, n, j) - 1)),
    decreases n,
{
    lemma_folded_prefix_step(s, n);
    if j < folded_index(s, n - 1) {
        lemma_folded_origin(s, n - 1, j);
    }
}

/// What is written holds the bytes of `s` and tabs, nothing else.
pub proof fn lemma_folded_bytes(s: Seq<u8>, j: int)
    requires
        0 <= j < folded(s).len(),
    ensures
        folded(s)[j] == HTAB || s.contains(folded(s)[j]),
{
    let len = s.len() as int;
    lemma_folded_origin(s, len, j);
    let i = folded_origin(s, len, j);
    lemma_folded_keeps_bytes(s, i);
    if j != folded_index(s, i) {
        lemma_folded_puts_tab(s, i - 1);
        lemma_folded_prefix_step(s, i);
        assert(!needs_tab_at(s, i - 2));
    } else {
        assert(s[i] == folded(s)[j]);
    }
}

/// A line break that the scanner finds outside quoted text, and that no
/// space or tab follows, is followed by a tab in what is written.
pub proof fn lemma_folded_puts_tab(s: Seq<u8>, i: int)
    requires
        needs_tab_at(s, i),
    ensures
        folded_index(s, i) + 2 < folded(s).len(),
        folded(s)[folded_index(s, i)] == CR,
        folded(s)[folded_index(s, i) + 1] == LF,
        folded(s)[folded_index(s, i) + 2] == HTAB,
{
    lemma_folded_prefix_step(s, i + 1);
    lemma_folded_prefix_step(s, i + 2);
    lemma_folded_prefix_grows(s, i + 2, s.len() as int);
    let k = folded_index(s, i);
    let behind = folded_prefix(s, i + 2);
    assert(!needs_tab_at(s, i - 1));
    assert(behind =~= folded_prefix(s, i) + seq![CR, LF, HTAB]);
    assert(folded(s).take(behind.len() as int)[k] == CR);
    assert(folded(s).take(behind.len() as int)[k + 1] == LF);
    assert(folded(s).take(behind.len() as int)[k + 2] == HTAB);
}

/// A byte string in which no line break needs a tab is written as it is.
pub proof fn lemma_folded_unchanged(s: Seq<u8>)
    requires
        forall|i: int| !#[trigger] needs_tab_at(s, i),
    ensures
        folded(s) == s,
{
    lemma_folded_prefix_plain(s, 0, s.len() as int);
    assert(s.subrange(0, s.len() as int) =~= s);
    assert(folded_prefix(s, 0) + s =~= s);
}

/// A byte string whose line breaks are all folds is written as it is.
pub proof fn lemma_folded_valid_unchanged(s: Seq<u8>)
    requires
        is_valid_value(s),
    ensures
        folded(s) == s,
{
    assert forall|i: int| !#[trigger] needs_tab_at(s, i) by {
        if crlf_at(s, i) {
            assert(blank_follows(s, i));
        }
    }
    lemma_folded_unchanged(s);
}

/// In what is written the scanner stands, in front of a byte of `s`, in the
/// state in which it stands in front of it in `s`.
pub proof fn lemma_folded_keeps_state(s: Seq<u8>, n: int)
    requires
        0 <= n <= s.len(),
    ensures
        scan_state(folded(s), folded_index(s, n)) == scan_state(s, n),
    decreases n,
{
    if n > 0 {
        lemma_folded_keeps_state(s, n - 1);
        lemma_folded_keeps_bytes(s, n - 1);
        lemma_folded_prefix_step(s, n);
        let out = folded(s);
        let k = folded_index(s, n - 1);
        assert(scan_state(out, k + 1) == scan_state(s, n));
        if needs_tab_at(s, n - 2) {
            lemma_folded_puts_tab(s, n - 2);
            lemma_folded_prefix_step(s, n - 1);
            assert(!needs_tab_at(s, n - 3));
            assert(folded_index(s, n - 2) + 1 == k);
            assert(out[k + 1] == HTAB);
            assert(scan_state(s, n - 1) == scan_state(s, n - 2));
            assert(scan_state(s, n) == scan_state(s, n - 1));
            assert(scan_state(out, k + 2) == scan_state(out, k + 1));
        }
    }
}

/// What is written holds no line break that needs a tab.
pub proof fn lemma_folded_is_safe(s: Seq<u8>, j: int)
    ensures
        !needs_tab_at(folded(s), j),
{
    let out = folded(s);
    let len = s.len() as int;
    if unquoted_crlf_at(out, j) {
        lemma_folded_origin(s, len, j);
        let i = folded_origin(s, len, j);
        lemma_folded_keeps_bytes(s, i);
        lemma_folded_prefix_step(s, i + 1);
        if j == folded_index(s, i) + 1 && needs_tab_at(s, i - 1) {
            lemma_folded_puts_tab(s, i - 1);
            lemma_folded_prefix_step(s, i);
            assert(!needs_tab_at(s, i - 2));
            assert(folded_index(s, i - 1) + 2 == j);
            assert(false);
        }
        assert(j == folded_index(s, i));
        assert(s[i] == CR);
        assert(!needs_tab_at(s, i - 1));
        assert(folded_index(s, i + 1) == j + 1);
        if i + 1 >= len {
            assert(false);
        }
        lemma_folded_keeps_bytes(s, i + 1);
        assert(s[i + 1] == LF);
        lemma_folded_keeps_state(s, i);
        assert(unquoted_crlf_at(s, i));
        if needs_tab_at(s, i) {
            lemma_folded_puts_tab(s, i);
        } else {
            lemma_folded_prefix_step(s, i + 2);
            assert(folded_index(s, i + 2) == j + 2);
            lemma_folded_keeps_bytes(s, i + 2);
        }
        assert(blank_follows(out, j));
    }
}

/// What is written is written as it is when it is written again.
pub proof fn lemma_folded_idempotent(s: Seq<u8>)
    ensures
        folded(folded(s)) == folded(s),
{
    assert forall|j: int| !#[trigger] needs_tab_at(folded(s), j) by {
        lemma_folded_is_safe(s, j);
    }
    lemma_folded_unchanged(folded(s));
}

/// A byte string without quotes and backslashes is written with folds
/// only: behind each `CR LF` of what is written stands a space or a tab.
pub proof fn lemma_folded_plain_is_valid(s: Seq<u8>)
    requires
        forall|j: int| 0 <= j < s.len() ==> #[trigger] s[j] != DQUOTE && s[j] != BACKSLASH,
    ensures
        is_valid_value(folded(s)),
{
    let out = folded(s);
    assert forall|j: int| 0 <= j < out.len() implies #[trigger] out[j] != DQUOTE && out[j]
        != BACKSLASH by {
        lemma_folded_bytes(s, j);
    }
    assert forall|j: int| #[trigger] crlf_at(out, j) implies blank_follows(out, j) by {
        lemma_plain_text_is_unquoted(out, j);
        lemma_folded_is_safe(s, j);
    }
}

} // verus!

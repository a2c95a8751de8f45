//! Word/line/character/byte counter (migration copy of [`crate::wc`]).

use vstd::prelude::*;

use crate::text::{byte_len, lines, words};

verus! {

/// Count words, lines, Unicode scalar values, and UTF-8 bytes in `text`.
///
/// Returns `(words, lines, chars, bytes)` with `str::lines()` semantics for
/// line counting and `str::split_whitespace()` for word boundaries.
pub fn wc(text: &str) -> (r: (usize, usize, usize, usize))
    ensures
        r.0 == words(text@).len(),
        r.1 == lines(text@).len(),
        r.2 == text@.len(),
        r.3 == byte_len(text@),
{
    crate::wc::wc(text)
}

} // verus!

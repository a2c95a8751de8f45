//! Word/line/character/byte counter.
//!
//! Behaviour follows `str::lines()` for line counting and
//! `str::split_whitespace()` for word boundaries.

use vstd::prelude::*;

use crate::text::{byte_len, chars_of, lines, lines_of, str_byte_len, words, words_of};

verus! {

/// Count words, lines, Unicode scalar values, and UTF-8 bytes in `text`.
///
/// Returns `(words, lines, chars, bytes)`.
pub fn wc(text: &str) -> (r: (usize, usize, usize, usize))
    ensures
        r.0 == words(text@).len(),
        r.1 == lines(text@).len(),
        r.2 == text@.len(),
        r.3 == byte_len(text@),
{
    let cs = chars_of(text);
    if cs.len() == 0 {
        assert(text@.len() == 0);
        assert(words(text@) =~= Seq::<Seq<char>>::empty());
        assert(lines(text@).len() == 0);
        return (0, 0, 0, 0);
    }
    let line_count = lines_of(&cs).len();
    let word_count = words_of(&cs).len();
    let char_count = cs.len();
    let byte_count = str_byte_len(text);
    (word_count, line_count, char_count, byte_count)
}

} // verus!

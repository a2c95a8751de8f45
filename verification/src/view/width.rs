//! Display widths and grapheme clusters, as the `unicode-width` and
//! `unicode-segmentation` crates compute them.

use unicode_segmentation::UnicodeSegmentation;
use unicode_width::{UnicodeWidthChar, UnicodeWidthStr};
use vstd::prelude::*;

use crate::text::string_views;

verus! {

/// The displayed width in columns that `unicode_width::UnicodeWidthStr::width`
/// gives the string `s`.
pub uninterp spec fn unicode_str_width(s: Seq<char>) -> nat;

/// The displayed width that `unicode_width::UnicodeWidthChar::width` gives
/// `c`; `None` for a control character.
pub uninterp spec fn unicode_char_width(c: char) -> Option<nat>;

/// The extended grapheme clusters of `s`, in order, as
/// `unicode_segmentation::UnicodeSegmentation::graphemes(s, true)` yields them.
pub uninterp spec fn extended_graphemes(s: Seq<char>) -> Seq<Seq<char>>;

/// Calls `UnicodeWidthStr::width`; the result is named, not stated.
#[verifier::external_body]
pub(crate) fn str_width(s: &str) -> (r: usize)
    ensures
        r == unicode_str_width(s@),
{
    UnicodeWidthStr::width(s)
}

/// Calls `UnicodeWidthChar::width`; the result is named, not stated.
#[verifier::external_body]
pub(crate) fn char_width(c: char) -> (r: Option<usize>)
    ensures
        match r {
            Some(w) => unicode_char_width(c) == Some(w as nat),
            None => unicode_char_width(c) is None,
        },
{
    UnicodeWidthChar::width(c)
}

/// Calls `UnicodeSegmentation::graphemes(s, true)` and copies each cluster.
#[verifier::external_body]
pub(crate) fn graphemes_of(s: &str) -> (r: Vec<String>)
    ensures
        string_views(r@) == extended_graphemes(s@),
{
    s.graphemes(true).map(|g| g.to_string()).collect()
}

} // verus!

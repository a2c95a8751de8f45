//! Concatenation fallback for history that could not be summarised.

use vstd::prelude::*;

use crate::message::{messages_view, text_of, text_of_parts, Message, MessageV, Role};
use crate::text::{str_byte_len, 
    byte_len, byte_len_chars, char_utf8_width, chars_of, extend_chars, extend_str,
    lemma_byte_len_push, string_of, utf8_width,
};

verus! {

/// Marker appended to a truncated fallback.
pub open spec fn truncation_marker() -> Seq<char> {
    "\n[...truncated]"@
}

/// `k` is the number of leading characters of `s` that fit in `budget` bytes.
pub open spec fn fits_prefix(s: Seq<char>, budget: nat, k: int) -> bool {
    &&& 0 <= k <= s.len()
    &&& byte_len(s.take(k)) <= budget
    &&& k == s.len() || byte_len(s.take(k + 1)) > budget
}

/// The result of truncating `text` to `max_bytes`: unchanged when it fits;
/// otherwise the longest character prefix that leaves room for the marker
/// (when the marker itself fits), followed by the marker.
pub open spec fn spec_truncate_fallback(text: Seq<char>, max_bytes: nat, k: int) -> bool {
    let marker = truncation_marker();
    let marker_len = byte_len(marker);
    if byte_len(text) <= max_bytes {
        true
    } else if max_bytes >= marker_len {
        fits_prefix(text, (max_bytes - marker_len) as nat, k)
    } else {
        fits_prefix(text, max_bytes, k)
    }
}

proof fn lemma_marker()
    ensures
        byte_len(truncation_marker()) == 15,
        truncation_marker().len() == 15,
{
    reveal_strlit("\n[...truncated]");
    let m = truncation_marker();
    assert forall|i: int| 0 <= i < m.len() implies utf8_width(m[i]) == 1 by {}
    lemma_byte_len_all_ascii(m);
}

proof fn lemma_byte_len_all_ascii(s: Seq<char>)
    requires
        forall|i: int| 0 <= i < s.len() ==> utf8_width(#[trigger] s[i]) == 1,
    ensures
        byte_len(s) == s.len(),
    decreases s.len(),
{
    if s.len() > 0 {
        assert(utf8_width(s[s.len() - 1]) == 1);
        lemma_byte_len_all_ascii(s.drop_last());
    }
}

/// Truncate `text` to at most `max_bytes` bytes on a character boundary,
/// appending `"\n[...truncated]"` when the marker fits in the budget.
pub fn truncate_fallback(text: String, max_bytes: usize) -> (r: String)
    ensures
        byte_len(text@) <= max_bytes ==> r@ == text@,
        byte_len(text@) > max_bytes ==> exists|k: int|
            spec_truncate_fallback(text@, max_bytes as nat, k) && r@ == text@.take(k) + (if max_bytes
                >= 15 {
                truncation_marker()
            } else {
                Seq::empty()
            }),
        byte_len(text@) > max_bytes ==> byte_len(r@) <= max_bytes,
{
    let _total = str_byte_len(text.as_str());
    let cs = chars_of(text.as_str());
    if byte_len_chars(&cs) <= max_bytes {
        return text;
    }
    proof {
        lemma_marker();
    }
    let marker = chars_of("\n[...truncated]");
    let marker_len: usize = 15;
    let use_marker = max_bytes >= marker_len;
    let end = if use_marker {
        max_bytes - marker_len
    } else {
        max_bytes
    };
    let mut out: Vec<char> = Vec::new();
    let mut used: usize = 0;
    let mut k: usize = 0;
    while k < cs.len()
        invariant
            k <= cs@.len(),
            out@ == cs@.take(k as int),
            used == byte_len(cs@.take(k as int)),
            used <= end,
        ensures
            k <= cs@.len(),
            out@ == cs@.take(k as int),
            used == byte_len(cs@.take(k as int)),
            used <= end,
            k == cs@.len() || byte_len(cs@.take(k + 1)) > end,
        decreases cs@.len() - k,
    {
        let w = char_utf8_width(cs[k]);
        if w > end - used {
            proof {
                lemma_byte_len_push(cs@.take(k as int), cs@[k as int]);
                assert(cs@.take(k + 1) =~= cs@.take(k as int).push(cs@[k as int]));
            }
            break;
        }
        proof {
            lemma_byte_len_push(cs@.take(k as int), cs@[k as int]);
            assert(cs@.take(k + 1) =~= cs@.take(k as int).push(cs@[k as int]));
        }
        out.push(cs[k]);
        used = used + w;
        k += 1;
    }
    let ghost kept = out@;
    if use_marker {
        extend_chars(&mut out, &marker);
    }
    proof {
        assert(fits_prefix(cs@, end as nat, k as int));
        assert(spec_truncate_fallback(text@, max_bytes as nat, k as int));
        if use_marker {
            crate::text::lemma_byte_len_concat(kept, marker@);
        } else {
            assert(out@ =~= kept + Seq::<char>::empty());
        }
    }
    string_of(&out)
}

/// Role label used in the fallback transcript.
pub open spec fn role_label(r: Role) -> Seq<char> {
    match r {
        Role::User => "User"@,
        Role::Assistant => "Assistant"@,
        Role::Tool => "Tool"@,
    }
}

/// `"<Role>: <text>"` lines joined by `'\n'`.
pub open spec fn transcript_text(ms: Seq<MessageV>) -> Seq<char>
    decreases ms.len(),
{
    if ms.len() == 0 {
        Seq::empty()
    } else {
        let line = role_label(ms.last().role) + ": "@ + text_of_parts(ms.last().parts);
        if ms.len() == 1 {
            line
        } else {
            transcript_text(ms.drop_last()) + "\n"@ + line
        }
    }
}

/// Bytes kept by the concatenation fallback.
pub const FALLBACK_BYTE_CAP: usize = 8000;

/// The concatenation fallback: every message as `"<Role>: <text>"`, one per
/// line, truncated to [`FALLBACK_BYTE_CAP`] bytes.
pub fn fallback_summary(messages: &[Message]) -> (r: String)
    ensures
        byte_len(transcript_text(messages_view(messages@))) <= FALLBACK_BYTE_CAP ==> r@
            == transcript_text(messages_view(messages@)),
        byte_len(transcript_text(messages_view(messages@))) > FALLBACK_BYTE_CAP ==> exists|k: int|
            spec_truncate_fallback(transcript_text(messages_view(messages@)), FALLBACK_BYTE_CAP as nat, k)
                && r@ == transcript_text(messages_view(messages@)).take(k) + truncation_marker(),
{
    let ghost v = messages_view(messages@);
    let mut out: Vec<char> = Vec::new();
    let mut i: usize = 0;
    while i < messages.len()
        invariant
            v == messages_view(messages@),
            i <= messages@.len(),
            out@ == transcript_text(v.take(i as int)),
        decreases messages@.len() - i,
    {
        proof {
            assert(v.take(i + 1).drop_last() =~= v.take(i as int));
            assert(v.take(i + 1).last() == messages@[i as int]@);
        }
        if i > 0 {
            extend_str(&mut out, "\n");
        }
        let label = match messages[i].role {
            Role::User => "User",
            Role::Assistant => "Assistant",
            Role::Tool => "Tool",
        };
        extend_str(&mut out, label);
        extend_str(&mut out, ": ");
        let t = text_of(&messages[i]);
        extend_chars(&mut out, &t);
        proof {
            if i == 0 {
                assert(v.take(0) =~= Seq::<MessageV>::empty());
                assert(out@ =~= transcript_text(v.take(i + 1)));
            } else {
                assert(out@ =~= transcript_text(v.take(i + 1)));
            }
        }
        i += 1;
    }
    proof {
        assert(v.take(messages@.len() as int) =~= v);
    }
    truncate_fallback(string_of(&out), FALLBACK_BYTE_CAP)
}

} // verus!

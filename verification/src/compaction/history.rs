//! History splitting, pruning and size estimation for compaction.

use vstd::prelude::*;

use crate::message::{
    clone_part, messages_view, parts_view, text_of, text_of_parts, Message, MessagePart,
    MessageV, PartV, Role,
};
use crate::text::{byte_len, byte_len_chars, chars_of};

verus! {

/// Number of recent user-assistant turns to preserve verbatim during compaction.
pub const COMPACTION_PRESERVE_TURNS: usize = 2;

/// Rough token-estimation heuristic: bytes per token.
pub const CHARS_PER_TOKEN: usize = 4;

/// A message that belongs to a user/assistant exchange.
pub open spec fn is_turn(m: MessageV) -> bool {
    m.role == Role::User || m.role == Role::Assistant
}

/// Number of user/assistant messages in `ms`.
pub open spec fn turn_count(ms: Seq<MessageV>) -> nat
    decreases ms.len(),
{
    if ms.len() == 0 {
        0
    } else {
        turn_count(ms.drop_last()) + if is_turn(ms.last()) {
            1nat
        } else {
            0nat
        }
    }
}

pub proof fn lemma_turn_count_concat(a: Seq<MessageV>, b: Seq<MessageV>)
    ensures
        turn_count(a + b) == turn_count(a) + turn_count(b),
    decreases b.len(),
{
    if b.len() == 0 {
        assert(a + b =~= a);
    } else {
        lemma_turn_count_concat(a, b.drop_last());
        assert((a + b).drop_last() =~= a + b.drop_last());
    }
}

proof fn lemma_turn_count_skip(s: Seq<MessageV>, i: int)
    requires
        0 <= i < s.len(),
    ensures
        turn_count(s.skip(i)) == turn_count(s.skip(i + 1)) + if is_turn(s[i]) {
            1nat
        } else {
            0nat
        },
{
    lemma_turn_count_concat(seq![s[i]], s.skip(i + 1));
    assert(seq![s[i]] + s.skip(i + 1) =~= s.skip(i));
    assert(seq![s[i]].drop_last() =~= Seq::<MessageV>::empty());
    assert(turn_count(Seq::<MessageV>::empty()) == 0);
}

/// The compaction boundary `b` of `ms`: the index of the
/// `2 * COMPACTION_PRESERVE_TURNS`-th user/assistant message counted from the
/// end, or 0 when there are fewer.
pub open spec fn is_compaction_boundary(ms: Seq<MessageV>, b: int) -> bool {
    let need = (2 * COMPACTION_PRESERVE_TURNS) as nat;
    &&& 0 <= b <= ms.len()
    &&& turn_count(ms) < need ==> b == 0
    &&& turn_count(ms) >= need ==> b < ms.len() && is_turn(ms[b]) && turn_count(ms.skip(b))
        == need
}

/// Split messages into head (to summarize) and tail (to preserve verbatim).
///
/// The tail starts at the `2 * COMPACTION_PRESERVE_TURNS`-th user/assistant
/// message from the end; with fewer such messages the head is empty.
pub fn split_for_compaction(messages: &[Message]) -> (r: (&[Message], &[Message]))
    ensures
        is_compaction_boundary(messages_view(messages@), r.0@.len() as int),
        r.0@ == messages@.take(r.0@.len() as int),
        r.1@ == messages@.skip(r.0@.len() as int),
{
    let ghost v = messages_view(messages@);
    let need = 2 * COMPACTION_PRESERVE_TURNS;
    let mut found: usize = 0;
    let mut i: usize = messages.len();
    proof {
        assert(v.skip(v.len() as int) =~= Seq::<MessageV>::empty());
        assert(turn_count(Seq::<MessageV>::empty()) == 0);
    }
    loop
        invariant
            v == messages_view(messages@),
            need == 2 * COMPACTION_PRESERVE_TURNS,
            i <= messages@.len(),
            found < need,
            found == turn_count(v.skip(i as int)),
        decreases i,
    {
        if i == 0 {
            proof {
                assert(v.skip(0) =~= v);
            }
            let r = messages.split_at(0);
            proof {
                assert(r.0@.len() == 0);
                assert(r.0@ =~= messages@.take(0));
                assert(r.1@ =~= messages@.skip(0));
            }
            return r;
        }
        i -= 1;
        proof {
            lemma_turn_count_skip(v, i as int);
            assert(v[i as int] == messages@[i as int]@);
        }
        let role = messages[i].role;
        if role == Role::User || role == Role::Assistant {
            found += 1;
            if found >= need {
                proof {
                    lemma_turn_count_concat(v.take(i as int), v.skip(i as int));
                    assert(v.take(i as int) + v.skip(i as int) =~= v);
                }
                let r = messages.split_at(i);
                proof {
                    assert(r.0@.len() == i);
                    assert(r.0@ =~= messages@.take(i as int));
                    assert(r.1@ =~= messages@.skip(i as int));
                    assert(turn_count(v) >= need);
                }
                return r;
            }
        }
    }
}

/// The parts of a message with tool results removed.
pub open spec fn pruned_parts(parts: Seq<PartV>) -> Seq<PartV>
    decreases parts.len(),
{
    if parts.len() == 0 {
        Seq::empty()
    } else if parts.last() is ToolResult {
        pruned_parts(parts.drop_last())
    } else {
        pruned_parts(parts.drop_last()).push(parts.last())
    }
}

/// `m` with its tool results removed; all other fields unchanged.
pub open spec fn pruned(m: MessageV) -> MessageV {
    MessageV { parts: pruned_parts(m.parts), ..m }
}

/// Prune messages to free up context space without calling a model: tool
/// results are removed; text, tool calls and file mentions are kept.
pub fn prune_messages(messages: &[Message]) -> (r: Vec<Message>)
    ensures
        r@.len() == messages@.len(),
        forall|i: int| 0 <= i < r@.len() ==> #[trigger] r@[i]@ == pruned(messages@[i]@),
{
    let mut out: Vec<Message> = Vec::new();
    let mut i: usize = 0;
    while i < messages.len()
        invariant
            i <= messages@.len(),
            out@.len() == i,
            forall|j: int| 0 <= j < i ==> #[trigger] out@[j]@ == pruned(messages@[j]@),
        decreases messages@.len() - i,
    {
        let msg = &messages[i];
        let mut parts: Vec<MessagePart> = Vec::new();
        let mut k: usize = 0;
        while k < msg.parts.len()
            invariant
                k <= msg.parts@.len(),
                parts_view(parts@) == pruned_parts(parts_view(msg.parts@).take(k as int)),
            decreases msg.parts@.len() - k,
        {
            proof {
                assert(parts_view(msg.parts@).take(k + 1).drop_last() =~= parts_view(
                    msg.parts@,
                ).take(k as int));
            }
            match &msg.parts[k] {
                MessagePart::ToolResult(_) => {},
                other => {
                    let ghost before = parts@;
                    parts.push(clone_part(other));
                    assert(parts_view(parts@) =~= parts_view(before).push(other@));
                },
            }
            k += 1;
        }
        proof {
            assert(parts_view(msg.parts@).take(msg.parts@.len() as int) =~= parts_view(
                msg.parts@,
            ));
        }
        let m = Message {
            id: msg.id,
            role: msg.role,
            parts,
            model: crate::message::clone_opt_string(&msg.model),
            created_at: msg.created_at,
        };
        out.push(m);
        i += 1;
    }
    out
}

/// Sum of the byte lengths of the text of `tail`.
pub open spec fn tail_text_bytes(tail: Seq<MessageV>) -> nat
    decreases tail.len(),
{
    if tail.len() == 0 {
        0
    } else {
        tail_text_bytes(tail.drop_last()) + byte_len(text_of_parts(tail.last().parts))
    }
}

/// Estimated tokens of a context made of `summary` followed by `tail`:
/// their byte total (saturating at `usize::MAX`) divided by [`CHARS_PER_TOKEN`].
pub open spec fn spec_estimate(summary: Seq<char>, tail: Seq<MessageV>) -> nat {
    let total = byte_len(summary) + tail_text_bytes(tail);
    let capped = if total <= usize::MAX {
        total
    } else {
        usize::MAX as nat
    };
    capped / (CHARS_PER_TOKEN as nat)
}

/// Estimated token count of a compacted context.
pub fn estimate_compacted_context(summary: &str, tail: &[Message]) -> (r: u64)
    ensures
        r == spec_estimate(summary@, messages_view(tail@)),
{
    let ghost v = messages_view(tail@);
    let mut total: usize = byte_len_chars(&chars_of(summary));
    let mut i: usize = 0;
    while i < tail.len()
        invariant
            v == messages_view(tail@),
            i <= tail@.len(),
            total == (if byte_len(summary@) + tail_text_bytes(v.take(i as int)) <= usize::MAX {
                byte_len(summary@) + tail_text_bytes(v.take(i as int))
            } else {
                usize::MAX as nat
            }),
        decreases tail@.len() - i,
    {
        let t = text_of(&tail[i]);
        let n = byte_len_chars(&t);
        proof {
            assert(v.take(i + 1).drop_last() =~= v.take(i as int));
            assert(v.take(i + 1).last() == tail@[i as int]@);
        }
        total = total.saturating_add(n);
        i += 1;
    }
    proof {
        assert(v.take(tail@.len() as int) =~= v);
    }
    (total / CHARS_PER_TOKEN) as u64
}

/// The reply that acknowledges a summary in a compacted history.
pub const SUMMARY_ACKNOWLEDGEMENT: &'static str = "Understood. I'll continue from where we left off.";

/// The user message that stands for everything a summary folded away.
pub open spec fn spec_summary_message(summary: Seq<char>) -> Seq<char> {
    "[Previous conversation summary]\n\n"@ + summary + "\n\n[End of summary — continue from here]"@
}

/// The two messages a compacted history starts with: the framed summary as
/// the user's, then the assistant's acknowledgement.
pub fn summary_frame(summary: &str) -> (r: (String, String))
    ensures
        r.0@ == spec_summary_message(summary@),
        r.1@ == SUMMARY_ACKNOWLEDGEMENT@,
{
    let mut user = chars_of("[Previous conversation summary]\n\n");
    crate::text::extend_str(&mut user, summary);
    crate::text::extend_str(&mut user, "\n\n[End of summary — continue from here]");
    let u = crate::text::string_of(&user);
    assert(u@ =~= spec_summary_message(summary@));
    (u, crate::text::string_of(&chars_of(SUMMARY_ACKNOWLEDGEMENT)))
}

} // verus!

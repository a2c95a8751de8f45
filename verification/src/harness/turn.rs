//! The steps of one turn around the model call: which messages are prior
//! history, what a blocked forced compaction reports, how usage updates the
//! context estimate, and the events of a canned reply.

use vstd::prelude::*;

use super::turn_compaction::{CompactionState, CompactionStateV};
use super::turn_history::CompactionBlocked;
use super::completion::last_user_index;
use crate::agent::stream::TurnUsage;
use crate::error::EngineError;
use crate::message::{messages_view, Message, Role};
use crate::text::{chars_of, extend_str, string_of};

verus! {

/// How many messages precede the current user message: the index of the last
/// user message, or 0 when there is none.
pub fn prior_message_count(messages: &[Message]) -> (r: usize)
    ensures
        r == match last_user_index(messages_view(messages@)) {
            Some(i) => i,
            None => 0,
        },
        r <= messages@.len(),
{
    let ghost mv = messages_view(messages@);
    let mut k: usize = messages.len();
    proof {
        assert(mv.take(mv.len() as int) =~= mv);
    }
    while k > 0
        invariant
            mv == messages_view(messages@),
            k <= messages@.len(),
            forall|j: int| k <= j < mv.len() ==> #[trigger] mv[j].role != Role::User,
            last_user_index(mv) == last_user_index(mv.take(k as int)),
        decreases k,
    {
        proof {
            assert(mv.take(k as int).drop_last() =~= mv.take(k - 1));
            assert(mv.take(k as int).last() == mv[k - 1]);
        }
        if messages[k - 1].role == Role::User {
            return k - 1;
        }
        k -= 1;
    }
    proof {
        assert(mv.take(0) =~= Seq::<crate::message::MessageV>::empty());
    }
    0
}

/// The error a retry reports when forced compaction is blocked: the summary's
/// own error, or a context overflow when nothing was left to compact.
pub fn blocked_error(blocked: CompactionBlocked) -> (r: EngineError)
    ensures
        match blocked {
            CompactionBlocked::NothingToCompact => r matches EngineError::ContextOverflow(m) && m@
                == "no compactable history remains after context overflow"@,
            CompactionBlocked::SummaryUnavailable(e) => r == e,
        },
{
    match blocked {
        CompactionBlocked::NothingToCompact => EngineError::ContextOverflow(
            string_of(&chars_of("no compactable history remains after context overflow")),
        ),
        CompactionBlocked::SummaryUnavailable(e) => e,
    }
}

impl CompactionState {
    /// Estimated token count for the context produced by the latest turn.
    pub fn session_tokens(&self) -> (r: u64)
        ensures
            r == self@.context_tokens,
    {
        self.context_tokens
    }

    /// Replace the context estimate with what the provider reported.
    pub fn record_context_usage(&mut self, observed_tokens: u64)
        ensures
            final(self)@ == (CompactionStateV { context_tokens: observed_tokens, ..old(self)@ }),
    {
        self.context_tokens = observed_tokens;
    }

    /// After a turn: the reported usage, when there is any, becomes the
    /// context estimate.
    pub fn record_turn_usage(&mut self, usage: &TurnUsage)
        requires
            usage.spec_total() <= u64::MAX,
        ensures
            final(self)@ == if usage.input_tokens == 0 && usage.output_tokens == 0
                && usage.cached_input_tokens == 0 && usage.cache_creation_input_tokens == 0 {
                old(self)@
            } else {
                CompactionStateV { context_tokens: usage.spec_total() as u64, ..old(self)@ }
            },
    {
        if !usage.is_empty() {
            self.record_context_usage(usage.total());
        }
    }

    /// The checkpoint created during the current turn, if any, for the host to
    /// persist: summary, boundary and the boundary message's id.
    pub fn updated_compaction(&self) -> (r: Option<(&str, usize, u128)>)
        ensures
            match self@.pending_update {
                Some(c) => r matches Some((s, n, id)) && s@ == c.summary && n == c.up_to && id
                    == c.message_id,
                None => r is None,
            },
    {
        match &self.pending_update {
            Some(c) => Some((c.summary.as_str(), c.up_to, c.compacted_up_to_message_id)),
            None => None,
        }
    }

    /// Forget the previous turn's checkpoint update before a new turn.
    pub fn begin_turn(&mut self)
        ensures
            final(self)@ == (CompactionStateV { pending_update: None, ..old(self)@ }),
    {
        self.pending_update = None;
    }
}

/// The system prompt with the memory section, when there is one, after a
/// blank line.
pub open spec fn spec_with_memory(prompt: Seq<char>, memory: Option<Seq<char>>) -> Seq<char> {
    match memory {
        Some(m) => prompt + "\n\n"@ + m,
        None => prompt,
    }
}

/// Append the memory section to the system prompt.
pub fn with_memory_section(prompt: &str, memory: Option<&str>) -> (r: String)
    ensures
        r@ == spec_with_memory(
            prompt@,
            match memory {
                Some(m) => Some(m@),
                None => None,
            },
        ),
{
    let mut out = chars_of(prompt);
    match memory {
        Some(m) => {
            extend_str(&mut out, "\n\n");
            extend_str(&mut out, m);
        },
        None => {},
    }
    string_of(&out)
}

/// An event of a turn, as the harness sends it. `mode` and `model` are the
/// turn's mode and model names.
#[derive(Debug)]
pub enum TurnEvent {
    Start { mode: String, model: String },
    TextDelta { delta: String },
    Finish {
        input_tokens: Option<u64>,
        output_tokens: Option<u64>,
        session_tokens: Option<u64>,
        context_limit: Option<u64>,
    },
}

/// The `Finish` of a reply sent without a model call: no call usage, the
/// session's context tokens, and the model's context limit when it has one.
pub open spec fn spec_reply_finish(e: TurnEvent, session_tokens: u64, context_limit: u64) -> bool {
    e matches TurnEvent::Finish { input_tokens, output_tokens, session_tokens: st, context_limit: cl }
        && input_tokens is None && output_tokens is None && st == Some(session_tokens) && cl == (
    if context_limit > 0 {
        Some(context_limit)
    } else {
        None
    })
}

/// The `Start` of a turn in `mode` on `model`.
pub open spec fn spec_reply_start(e: TurnEvent, mode: Seq<char>, model: Seq<char>) -> bool {
    e matches TurnEvent::Start { mode: m, model: md } && m@ == mode && md@ == model
}

/// The events of a reply sent without a model call: one `Start` carrying the
/// turn's mode and model, the reply as one `TextDelta` unless it is empty,
/// and one `Finish` carrying the session's context tokens; no tool events.
pub fn reply_events(
    reply: &str,
    mode: &str,
    model: &str,
    session_tokens: u64,
    context_limit: u64,
) -> (r: Vec<TurnEvent>)
    ensures
        reply@.len() == 0 ==> r@.len() == 2 && spec_reply_start(r@[0], mode@, model@)
            && spec_reply_finish(r@[1], session_tokens, context_limit),
        reply@.len() > 0 ==> r@.len() == 3 && spec_reply_start(r@[0], mode@, model@) && (r@[1] matches TurnEvent::TextDelta {
            delta,
        } && delta@ == reply@) && spec_reply_finish(r@[2], session_tokens, context_limit),
{
    let mut out: Vec<TurnEvent> = Vec::new();
    out.push(TurnEvent::Start { mode: string_of(&chars_of(mode)), model: string_of(&chars_of(model)) });
    if !reply.is_empty() {
        out.push(TurnEvent::TextDelta { delta: string_of(&chars_of(reply)) });
    }
    let limit = if context_limit > 0 {
        Some(context_limit)
    } else {
        None
    };
    out.push(
        TurnEvent::Finish {
            input_tokens: None,
            output_tokens: None,
            session_tokens: Some(session_tokens),
            context_limit: limit,
        },
    );
    out
}

} // verus!

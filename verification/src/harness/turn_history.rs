//! Choosing the history a turn sends. The decisions are split around the one
//! outside step, the summarising model call: `plan_turn_history` validates the
//! checkpoint and decides whether to compact; `finish_turn_history` takes the
//! summariser's result and moves the boundary, or keeps it (fail closed).

use vstd::prelude::*;

use super::turn_compaction::{
    accept_summary, should_compact_history, spec_after_checkpoint_for, spec_after_install,
    spec_checkpoint_for, spec_new_checkpoint, spec_should_compact, CompactionMode,
    CompactionState, CompactionStateV,
};
use crate::compaction::summary::is_blank;
use crate::compaction::{
    estimate_compacted_context, prune_messages, split_for_compaction, CompactionResult,
};
use crate::compaction::history::{is_compaction_boundary, pruned, spec_estimate};
use crate::error::EngineError;
use crate::message::{clone_message, messages_view, Message, MessageV};
use crate::text::{chars_of, string_of};

verus! {

/// Why a turn could not be given a freshly compacted history.
#[derive(Debug)]
pub enum CompactionBlocked {
    /// There is not enough uncovered history to fold into a summary.
    NothingToCompact,
    /// Compaction ran but produced no usable summary; carries the cause.
    SummaryUnavailable(EngineError),
}

/// The history a turn sends, in terms of the transcript it was built from.
#[derive(Debug)]
pub enum TurnHistory {
    /// The whole transcript.
    Full,
    /// `summary`, then the transcript from message `from` on.
    SummaryTail { summary: String, from: usize },
    /// A fresh `summary`, then the preserved (pruned) `tail`.
    Compacted { summary: String, tail: Vec<Message> },
}

/// The work handed to the summariser: fold `head` into a summary (extending
/// `previous_summary`), keep `tail` verbatim.
#[derive(Debug)]
pub struct CompactionJob {
    /// Messages already covered by the current checkpoint.
    pub compacted_up_to: usize,
    /// Pruned messages to summarise.
    pub head: Vec<Message>,
    /// Pruned messages kept verbatim.
    pub tail: Vec<Message>,
    /// The current checkpoint's summary, if any.
    pub previous_summary: Option<String>,
    /// Estimated context tokens before compaction.
    pub tokens_before: u64,
}

/// Result of planning a turn's history.
#[derive(Debug)]
pub enum HistoryStep {
    /// No compaction this turn; the history (or why there is none) is final.
    Ready(Result<TurnHistory, CompactionBlocked>),
    /// Run the summariser on the job, then call `finish_turn_history`.
    Compact(CompactionJob),
}

/// The history when no new summary is produced. A forced compaction reports
/// why it is blocked; otherwise the current checkpoint's summary (if any) is
/// followed by the messages it does not cover, or the whole transcript is
/// sent.
pub open spec fn spec_without_new_summary(
    mode: CompactionMode,
    previous_summary: Option<Seq<char>>,
    from: nat,
) -> Option<Option<(Seq<char>, nat)>> {
    if mode == CompactionMode::Forced {
        None
    } else {
        match previous_summary {
            Some(s) => Some(Some((s, from))),
            None => Some(None),
        }
    }
}

/// `r` is the history `spec_without_new_summary` describes, with `blocked`
/// as the reason when there is none.
pub open spec fn is_without_new_summary(
    r: Result<TurnHistory, CompactionBlocked>,
    mode: CompactionMode,
    previous_summary: Option<Seq<char>>,
    from: nat,
    blocked: CompactionBlocked,
) -> bool {
    match spec_without_new_summary(mode, previous_summary, from) {
        None => r == Err::<TurnHistory, CompactionBlocked>(blocked),
        Some(None) => r matches Ok(TurnHistory::Full),
        Some(Some((s, f))) => r matches Ok(TurnHistory::SummaryTail { summary, from }) && summary@
            == s && from == f,
    }
}

/// `r` is the history kept when no new summary is installed: as
/// `spec_without_new_summary` describes, with no thought time, or a reason
/// that satisfies `reason` when a forced compaction is blocked.
pub open spec fn is_kept(
    r: Result<(TurnHistory, u64), CompactionBlocked>,
    mode: CompactionMode,
    previous_summary: Option<Seq<char>>,
    from: nat,
    reason: spec_fn(CompactionBlocked) -> bool,
) -> bool {
    match spec_without_new_summary(mode, previous_summary, from) {
        None => r matches Err(b) && reason(b),
        Some(None) => r matches Ok((TurnHistory::Full, 0)),
        Some(Some((s, f))) => r matches Ok((TurnHistory::SummaryTail { summary, from }, 0))
            && summary@ == s && from == f,
    }
}

/// Pruning applied to every message.
pub open spec fn pruned_all(ms: Seq<MessageV>) -> Seq<MessageV> {
    Seq::new(ms.len(), |i: int| pruned(ms[i]))
}

/// History to send when no new summary was produced: either compaction was
/// not needed, or it failed and the boundary stays put. A forced compaction
/// returns `blocked`, since resending the oversized history would only fail
/// again.
pub fn history_without_new_summary(
    mode: CompactionMode,
    previous_summary: Option<String>,
    from: usize,
    blocked: CompactionBlocked,
) -> (r: Result<TurnHistory, CompactionBlocked>)
    ensures
        is_without_new_summary(
            r,
            mode,
            match previous_summary {
                Some(s) => Some(s@),
                None => None,
            },
            from as nat,
            blocked,
        ),
{
    if mode == CompactionMode::Forced {
        return Err(blocked);
    }
    match previous_summary {
        Some(summary) => Ok(TurnHistory::SummaryTail { summary, from }),
        None => Ok(TurnHistory::Full),
    }
}

fn copy_messages(ms: &[Message]) -> (r: Vec<Message>)
    ensures
        messages_view(r@) == messages_view(ms@),
{
    let mut out: Vec<Message> = Vec::new();
    let mut i: usize = 0;
    while i < ms.len()
        invariant
            i <= ms@.len(),
            out@.len() == i,
            forall|j: int| 0 <= j < i ==> #[trigger] out@[j]@ == ms@[j]@,
        decreases ms@.len() - i,
    {
        out.push(clone_message(&ms[i]));
        i += 1;
    }
    assert(messages_view(out@) =~= messages_view(ms@));
    out
}

/// Plan the history for a turn over `prior_messages`.
///
/// The checkpoint is validated first (a stale one is dropped, fail closed).
/// When compaction is not called for (see `should_compact_history`, over the
/// messages the checkpoint does not cover), the step is final: a forced
/// compaction is blocked with `NothingToCompact`, an automatic one sends the
/// checkpoint summary and the uncovered messages, or the whole transcript.
/// Otherwise the uncovered messages are pruned and split into the head to
/// summarise and the tail to keep.
pub fn plan_turn_history(
    state: &mut CompactionState,
    prior_messages: &[Message],
    mode: CompactionMode,
    automatic_triggered: bool,
) -> (r: HistoryStep)
    ensures
        final(state)@ == spec_after_checkpoint_for(old(state)@, messages_view(prior_messages@)),
        ({
            let c = spec_checkpoint_for(old(state)@, messages_view(prior_messages@));
            let up: nat = match c {
                Some(c) => c.up_to,
                None => 0,
            };
            let previous = match c {
                Some(c) => Some(c.summary),
                None => None,
            };
            let uncovered = messages_view(prior_messages@).skip(up as int);
            if !spec_should_compact(mode, automatic_triggered, uncovered.len()) {
                r matches HistoryStep::Ready(h) && is_without_new_summary(
                    h,
                    mode,
                    previous,
                    up,
                    CompactionBlocked::NothingToCompact,
                )
            } else {
                r matches HistoryStep::Compact(job) && job.compacted_up_to == up
                    && job.compacted_up_to + job.head@.len() <= prior_messages@.len()
                    && messages_view(job.head@) + messages_view(job.tail@) == pruned_all(
                    uncovered,
                ) && is_compaction_boundary(pruned_all(uncovered), job.head@.len() as int)
                    && match job.previous_summary {
                    Some(s) => previous == Some(s@),
                    None => previous is None,
                } && job.tokens_before == old(state)@.context_tokens
            }
        }),
{
    let ghost v = messages_view(prior_messages@);
    let checkpoint = state.checkpoint_for_history(prior_messages);
    let (compacted_up_to, previous_summary) = match &checkpoint {
        Some(c) => (c.up_to, Some(c.summary.clone())),
        None => (0, None),
    };
    let uncovered = prior_messages.split_at(compacted_up_to).1;
    proof {
        assert(uncovered@ =~= prior_messages@.skip(compacted_up_to as int));
        assert(messages_view(uncovered@) =~= v.skip(compacted_up_to as int));
    }
    if !should_compact_history(mode, automatic_triggered, uncovered.len()) {
        return HistoryStep::Ready(
            history_without_new_summary(
                mode,
                previous_summary,
                compacted_up_to,
                CompactionBlocked::NothingToCompact,
            ),
        );
    }
    let pruned_msgs = prune_messages(uncovered);
    proof {
        assert(messages_view(pruned_msgs@) =~= pruned_all(messages_view(uncovered@)));
    }
    let (head, tail) = split_for_compaction(pruned_msgs.as_slice());
    let head_v = copy_messages(head);
    let tail_v = copy_messages(tail);
    proof {
        assert(pruned_msgs@.take(head@.len() as int) + pruned_msgs@.skip(head@.len() as int)
            =~= pruned_msgs@);
        assert(messages_view(head@) + messages_view(tail@) =~= messages_view(pruned_msgs@));
    }
    HistoryStep::Compact(
        CompactionJob {
            compacted_up_to,
            head: head_v,
            tail: tail_v,
            previous_summary,
            tokens_before: state.context_tokens,
        },
    )
}

/// The message that "compaction checkpoint could not be installed" carries.
pub open spec fn install_failure() -> Seq<char> {
    "compaction checkpoint could not be installed"@
}

/// Finish a compaction job with the summariser's `result`.
///
/// Fail closed: when the result is an error or a blank summary, or the head
/// is empty, the state is left as it was and the history is the one without a
/// new summary (a forced compaction reports why). Otherwise the checkpoint
/// moves to cover the head, the estimated context becomes that of the summary
/// and tail, and the history is the summary followed by the tail; the thought
/// duration is returned for the compaction event.
pub fn finish_turn_history(
    state: &mut CompactionState,
    mode: CompactionMode,
    job: CompactionJob,
    result: Result<CompactionResult, EngineError>,
) -> (r: Result<(TurnHistory, u64), CompactionBlocked>)
    requires
        job.compacted_up_to + job.head@.len() <= usize::MAX,
    ensures
        ({
            let previous = match job.previous_summary {
                Some(s) => Some(s@),
                None => None,
            };
            let from = job.compacted_up_to as nat;
            match result {
                Err(e) => final(state)@ == old(state)@ && is_kept(
                    r,
                    mode,
                    previous,
                    from,
                    |b: CompactionBlocked| b == CompactionBlocked::SummaryUnavailable(e),
                ),
                Ok(c) => if is_blank(c.summary@) {
                    final(state)@ == old(state)@ && is_kept(
                        r,
                        mode,
                        previous,
                        from,
                        |b: CompactionBlocked|
                            b matches CompactionBlocked::SummaryUnavailable(EngineError::Other(m))
                                && m@ == "compaction returned an empty summary"@,
                    )
                } else if job.head@.len() == 0 {
                    final(state)@ == old(state)@ && is_kept(
                        r,
                        mode,
                        previous,
                        from,
                        |b: CompactionBlocked| b is NothingToCompact,
                    )
                } else {
                    let up = (job.compacted_up_to + job.head@.len()) as nat;
                    let id = job.head@.last().id;
                    &&& spec_new_checkpoint(Some(c.summary@), up, Some(id)) is Some
                    &&& final(state)@ == CompactionStateV {
                        context_tokens: spec_estimate(c.summary@, messages_view(job.tail@)) as u64,
                        ..spec_after_install(old(state)@, c.summary@, up, id)
                    }
                    &&& r matches Ok((TurnHistory::Compacted { summary, tail }, ms)) && summary
                        == c.summary && tail == job.tail && ms == c.thought_duration_ms
                }
            }
        }),
{
    let (summary, thought_duration_ms) = match accept_summary(result) {
        Ok(accepted) => accepted,
        Err(error) => {
            return match history_without_new_summary(
                mode,
                job.previous_summary,
                job.compacted_up_to,
                CompactionBlocked::SummaryUnavailable(error),
            ) {
                Ok(h) => Ok((h, 0)),
                Err(b) => Err(b),
            };
        },
    };
    if job.head.len() == 0 {
        return match history_without_new_summary(
            mode,
            job.previous_summary,
            job.compacted_up_to,
            CompactionBlocked::NothingToCompact,
        ) {
            Ok(h) => Ok((h, 0)),
            Err(b) => Err(b),
        };
    }
    let new_up_to = job.compacted_up_to + job.head.len();
    let last_id = job.head[job.head.len() - 1].id;
    let ghost before = state@;
    if !state.install_checkpoint(summary.clone(), new_up_to, last_id) {
        return match history_without_new_summary(
            mode,
            job.previous_summary,
            job.compacted_up_to,
            CompactionBlocked::SummaryUnavailable(
                EngineError::Other(string_of(&chars_of("compaction checkpoint could not be installed"))),
            ),
        ) {
            Ok(h) => Ok((h, 0)),
            Err(b) => Err(b),
        };
    }
    state.context_tokens = estimate_compacted_context(summary.as_str(), job.tail.as_slice());
    Ok((TurnHistory::Compacted { summary, tail: job.tail }, thought_duration_ms))
}

} // verus!

//! Compaction checkpoints: a summary paired with the exact message-prefix
//! boundary it replaces, and the state machine that installs and validates it.

use vstd::prelude::*;

use crate::compaction::{CompactionResult, COMPACTION_PRESERVE_TURNS};
use crate::compaction::summary::is_blank;
use crate::error::EngineError;
use crate::message::{messages_view, Message, MessageV};
use crate::text::{chars_of, string_of, trim, trim_chars};

verus! {

/// A summary paired with the exact message-prefix boundary it replaces.
/// `compacted_up_to_message_id` is the id of message `up_to - 1`.
#[derive(Debug)]
pub struct CompactionCheckpoint {
    pub summary: String,
    pub up_to: usize,
    pub compacted_up_to_message_id: u128,
}

/// The value of a checkpoint.
pub struct CheckpointV {
    pub summary: Seq<char>,
    pub up_to: nat,
    pub message_id: u128,
}

impl View for CompactionCheckpoint {
    type V = CheckpointV;

    open spec fn view(&self) -> CheckpointV {
        CheckpointV {
            summary: self.summary@,
            up_to: self.up_to as nat,
            message_id: self.compacted_up_to_message_id,
        }
    }
}

/// The value of an optional checkpoint.
pub open spec fn opt_checkpoint(c: Option<CompactionCheckpoint>) -> Option<CheckpointV> {
    match c {
        Some(c) => Some(c@),
        None => None,
    }
}

/// The checkpoint built from a raw summary, boundary and boundary identity:
/// present only when all three are present and usable.
pub open spec fn spec_new_checkpoint(
    summary: Option<Seq<char>>,
    up_to: nat,
    message_id: Option<u128>,
) -> Option<CheckpointV> {
    match (summary, message_id) {
        (Some(s), Some(id)) => if trim(s).len() == 0 || up_to == 0 {
            None
        } else {
            Some(CheckpointV { summary: trim(s), up_to, message_id: id })
        },
        _ => None,
    }
}

impl CompactionCheckpoint {
    /// Returns `None` unless summary, boundary, and boundary identity are complete:
    /// the summary is stored trimmed and must not be blank, the boundary must be
    /// positive.
    pub fn new(
        summary: Option<String>,
        up_to: usize,
        compacted_up_to_message_id: Option<u128>,
    ) -> (r: Option<Self>)
        ensures
            opt_checkpoint(r) == spec_new_checkpoint(
                match summary {
                    Some(s) => Some(s@),
                    None => None,
                },
                up_to as nat,
                compacted_up_to_message_id,
            ),
    {
        let summary = match summary {
            Some(s) => s,
            None => return None,
        };
        let trimmed = trim_chars(&chars_of(summary.as_str()));
        if trimmed.len() == 0 || up_to == 0 {
            return None;
        }
        match compacted_up_to_message_id {
            Some(id) => Some(
                Self { summary: string_of(&trimmed), up_to, compacted_up_to_message_id: id },
            ),
            None => None,
        }
    }

    /// Exact copy.
    pub fn duplicate(&self) -> (r: Self)
        ensures
            r@ == self@,
    {
        Self {
            summary: self.summary.clone(),
            up_to: self.up_to,
            compacted_up_to_message_id: self.compacted_up_to_message_id,
        }
    }
}

/// A checkpoint still describes `messages` when the message just before its
/// boundary is the one it recorded.
pub open spec fn checkpoint_matches(c: CheckpointV, messages: Seq<MessageV>) -> bool {
    c.up_to > 0 && c.up_to <= messages.len() && messages[c.up_to - 1].id == c.message_id
}

/// Mutable context-compaction state for one harness.
#[derive(Debug)]
pub struct CompactionState {
    pub context_tokens: u64,
    pub checkpoint: Option<CompactionCheckpoint>,
    pub pending_update: Option<CompactionCheckpoint>,
}

/// The value of the compaction state.
pub struct CompactionStateV {
    pub context_tokens: u64,
    pub checkpoint: Option<CheckpointV>,
    pub pending_update: Option<CheckpointV>,
}

impl View for CompactionState {
    type V = CompactionStateV;

    open spec fn view(&self) -> CompactionStateV {
        CompactionStateV {
            context_tokens: self.context_tokens,
            checkpoint: opt_checkpoint(self.checkpoint),
            pending_update: opt_checkpoint(self.pending_update),
        }
    }
}

/// What `checkpoint_for_history` returns for a state and transcript.
pub open spec fn spec_checkpoint_for(s: CompactionStateV, messages: Seq<MessageV>) -> Option<
    CheckpointV,
> {
    match s.checkpoint {
        Some(c) => if checkpoint_matches(c, messages) {
            Some(c)
        } else {
            None
        },
        None => None,
    }
}

/// The state after `checkpoint_for_history`: a stale checkpoint (and any
/// pending update) is dropped; otherwise nothing changes.
pub open spec fn spec_after_checkpoint_for(
    s: CompactionStateV,
    messages: Seq<MessageV>,
) -> CompactionStateV {
    match s.checkpoint {
        Some(c) => if checkpoint_matches(c, messages) {
            s
        } else {
            CompactionStateV { checkpoint: None, pending_update: None, ..s }
        },
        None => s,
    }
}

/// The state after installing `(summary, up_to, id)`: when the checkpoint is
/// usable it becomes both the current checkpoint and the pending update.
pub open spec fn spec_after_install(
    s: CompactionStateV,
    summary: Seq<char>,
    up_to: nat,
    id: u128,
) -> CompactionStateV {
    match spec_new_checkpoint(Some(summary), up_to, Some(id)) {
        Some(c) => CompactionStateV { checkpoint: Some(c), pending_update: Some(c), ..s },
        None => s,
    }
}

impl CompactionState {
    /// A fresh state: no tokens, no checkpoint, no pending update.
    pub fn new() -> (r: Self)
        ensures
            r@.context_tokens == 0,
            r@.checkpoint is None,
            r@.pending_update is None,
    {
        Self { context_tokens: 0, checkpoint: None, pending_update: None }
    }

    /// The checkpoint, if it still matches `messages`. A stale checkpoint fails
    /// closed: it is dropped together with any pending update.
    pub fn checkpoint_for_history(&mut self, messages: &[Message]) -> (r: Option<
        CompactionCheckpoint,
    >)
        ensures
            opt_checkpoint(r) == spec_checkpoint_for(old(self)@, messages_view(messages@)),
            final(self)@ == spec_after_checkpoint_for(old(self)@, messages_view(messages@)),
    {
        let ghost v = messages_view(messages@);
        let valid = match &self.checkpoint {
            Some(c) => c.up_to > 0 && c.up_to <= messages.len() && messages[c.up_to
                - 1].id == c.compacted_up_to_message_id,
            None => return None,
        };
        if valid {
            match &self.checkpoint {
                Some(c) => {
                    proof {
                        assert(v[c.up_to - 1] == messages@[c.up_to - 1]@);
                    }
                    Some(c.duplicate())
                },
                None => None,
            }
        } else {
            proof {
                let c = self.checkpoint->0;
                if c.up_to > 0 && c.up_to <= messages@.len() {
                    assert(v[c.up_to - 1] == messages@[c.up_to - 1]@);
                }
            }
            self.checkpoint = None;
            self.pending_update = None;
            None
        }
    }

    /// Install a new checkpoint. Returns `false`, changing nothing, when the
    /// summary is blank or the boundary is zero.
    pub fn install_checkpoint(
        &mut self,
        summary: String,
        up_to: usize,
        compacted_up_to_message_id: u128,
    ) -> (r: bool)
        ensures
            r == spec_new_checkpoint(Some(summary@), up_to as nat, Some(compacted_up_to_message_id)) is Some,
            final(self)@ == spec_after_install(
                old(self)@,
                summary@,
                up_to as nat,
                compacted_up_to_message_id,
            ),
    {
        let c = CompactionCheckpoint::new(Some(summary), up_to, Some(compacted_up_to_message_id));
        match c {
            Some(c) => {
                let pending = c.duplicate();
                self.checkpoint = Some(c);
                self.pending_update = Some(pending);
                true
            },
            None => false,
        }
    }
}

/// Reading the checkpoint back right after installing it, against a transcript
/// whose message `up_to - 1` carries the recorded id, yields exactly the
/// installed (trimmed) summary and boundary, and leaves the state unchanged.
pub proof fn lemma_install_then_read(
    s: CompactionStateV,
    summary: Seq<char>,
    up_to: nat,
    id: u128,
    messages: Seq<MessageV>,
)
    requires
        trim(summary).len() > 0,
        0 < up_to <= messages.len(),
        messages[up_to - 1].id == id,
    ensures
        spec_checkpoint_for(spec_after_install(s, summary, up_to, id), messages) == Some(
            CheckpointV { summary: trim(summary), up_to, message_id: id },
        ),
        spec_after_checkpoint_for(spec_after_install(s, summary, up_to, id), messages)
            == spec_after_install(s, summary, up_to, id),
        spec_after_install(s, summary, up_to, id).pending_update == Some(
            CheckpointV { summary: trim(summary), up_to, message_id: id },
        ),
{
}

/// Validating a checkpoint is idempotent: a second read against the same
/// transcript returns the same answer and changes nothing more.
pub proof fn lemma_checkpoint_for_idempotent(s: CompactionStateV, messages: Seq<MessageV>)
    ensures
        spec_checkpoint_for(spec_after_checkpoint_for(s, messages), messages)
            == spec_checkpoint_for(s, messages),
        spec_after_checkpoint_for(spec_after_checkpoint_for(s, messages), messages)
            == spec_after_checkpoint_for(s, messages),
{
}

/// A checkpoint that no longer matches the transcript is never used again: once
/// dropped, every later read returns `None`.
pub proof fn lemma_stale_checkpoint_is_dropped(
    s: CompactionStateV,
    messages: Seq<MessageV>,
    later: Seq<MessageV>,
)
    requires
        s.checkpoint is Some,
        !checkpoint_matches(s.checkpoint->0, messages),
    ensures
        spec_checkpoint_for(s, messages) is None,
        spec_checkpoint_for(spec_after_checkpoint_for(s, messages), later) is None,
        spec_after_checkpoint_for(s, messages).pending_update is None,
{
}

/// Whether a turn compacts automatically or because compaction was forced.
#[derive(Debug, Clone, Copy, PartialEq, Eq, Structural)]
pub enum CompactionMode {
    Automatic,
    Forced,
}

/// Compaction runs when forced or automatically triggered, and only when more
/// than `2 * COMPACTION_PRESERVE_TURNS` messages are not yet covered.
pub open spec fn spec_should_compact(
    mode: CompactionMode,
    automatic_triggered: bool,
    uncovered_messages: nat,
) -> bool {
    (mode == CompactionMode::Forced || automatic_triggered) && uncovered_messages > 2
        * COMPACTION_PRESERVE_TURNS
}

/// Whether this turn should fold uncovered history into a new summary.
pub fn should_compact_history(
    mode: CompactionMode,
    automatic_triggered: bool,
    uncovered_messages: usize,
) -> (r: bool)
    ensures
        r == spec_should_compact(mode, automatic_triggered, uncovered_messages as nat),
{
    (mode == CompactionMode::Forced || automatic_triggered) && uncovered_messages > 2
        * COMPACTION_PRESERVE_TURNS
}

/// Accept a compaction result only if it actually produced a summary: a
/// provider error or a blank summary is an error, and the boundary stays put.
pub fn accept_summary(result: Result<CompactionResult, EngineError>) -> (r: Result<
    (String, u64),
    EngineError,
>)
    ensures
        match result {
            Ok(c) => if is_blank(c.summary@) {
                r matches Err(e) && e matches EngineError::Other(m) && m@
                    == "compaction returned an empty summary"@
            } else {
                r matches Ok(p) && p.0 == c.summary && p.1 == c.thought_duration_ms
            },
            Err(e) => r matches Err(e2) && e2 == e,
        },
{
    match result {
        Ok(c) => {
            if trim_chars(&chars_of(c.summary.as_str())).len() > 0 {
                Ok((c.summary, c.thought_duration_ms))
            } else {
                Err(EngineError::Other(string_of(&chars_of("compaction returned an empty summary"))))
            }
        },
        Err(e) => Err(e),
    }
}

} // verus!

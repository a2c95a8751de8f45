//! Turn-level decisions of the agent harness: compaction checkpoints, the
//! retry gate after a context overflow, and the concatenation fallback.

pub mod compaction;
pub mod completion;
pub mod turn;
pub mod turn_compaction;
pub mod turn_history;

pub use self::compaction::{fallback_summary, truncate_fallback};


pub use self::turn_compaction::{
    accept_summary, should_compact_history, CompactionCheckpoint, CompactionMode, CompactionState,
};

use vstd::prelude::*;

use crate::error::EngineError;

verus! {

/// Turn-level error wrapper that tracks whether the agent emitted text or
/// tool activity before the error occurred.
#[derive(Debug)]
pub struct AttemptError {
    pub error: EngineError,
    pub agent_activity: bool,
}

impl AttemptError {
    pub fn new(error: EngineError, agent_activity: bool) -> (r: Self)
        ensures
            r.error == error,
            r.agent_activity == agent_activity,
    {
        Self { error, agent_activity }
    }
}

/// Retry a context-overflow turn only when the first attempt produced no
/// activity (no text, no tool calls).
pub fn should_retry_after_compaction(attempt: &AttemptError) -> (r: bool)
    ensures
        r == (attempt.error.spec_is_context_overflow() && !attempt.agent_activity),
{
    attempt.error.is_context_overflow() && !attempt.agent_activity
}

} // verus!

//! Context compaction domain: validating and streaming summaries, splitting
//! and pruning history.

pub mod history;
pub mod summary;

pub use history::{
    estimate_compacted_context, prune_messages, split_for_compaction, CHARS_PER_TOKEN,
    COMPACTION_PRESERVE_TURNS,
};
pub use summary::{
    chunk_summary_for_streaming, has_required_summary_sections, select_authoritative_summary,
    summary_deltas, CompactionResult, COMPACTION_STREAM_CHUNK_CHARS,
};

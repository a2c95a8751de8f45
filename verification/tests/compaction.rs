use mewcode::agent::stream::StreamItem;
use mewcode::compaction::summary::{build_compaction_prompt, compaction_outcome, compaction_records};
use mewcode::compaction::{
    chunk_summary_for_streaming, estimate_compacted_context, has_required_summary_sections,
    prune_messages, select_authoritative_summary, split_for_compaction, summary_deltas,
};
use mewcode::error::EngineError;
use mewcode::json::Json;
use mewcode::message::{Message, MessagePart, Role, ToolResult};

fn s(text: &str) -> String {
    text.to_string()
}

fn msg(id: u128, role: Role, text: &str) -> Message {
    Message { id, role, parts: vec![MessagePart::Text { text: s(text) }], model: None, created_at: 0 }
}

const GOOD: &str = "**Objective**\n- goal\n\n**State**\n- done\n**Constraints**\n- none\n**Next**\n- None";

#[test]
fn summaries_need_the_four_sections_in_order() {
    assert!(has_required_summary_sections(GOOD));
    assert!(!has_required_summary_sections("**Objective**\n- goal"));
    assert!(!has_required_summary_sections("**State**\n- a\n**Objective**\n- b\n**Constraints**\n- c\n**Next**\n- d"));
    assert!(!has_required_summary_sections(&format!("{GOOD}\n{}", "x".repeat(20000))));
    assert!(summary_deltas(GOOD).is_ok());
    match summary_deltas("nope") {
        Err(EngineError::Other(m)) => assert_eq!(m, "compaction agent returned an invalid summary schema"),
        other => panic!("unexpected {other:?}"),
    }
}

#[test]
fn chunks_concatenate_back() {
    let chunks = chunk_summary_for_streaming("héllo wörld", 4);
    assert_eq!(chunks, vec![s("héll"), s("o wö"), s("rld")]);
    assert!(chunk_summary_for_streaming("", 4).is_empty());
    assert_eq!(chunk_summary_for_streaming("ab", 0), vec![s("a"), s("b")]);
}

#[test]
fn the_final_response_is_authoritative() {
    assert_eq!(select_authoritative_summary(s("streamed"), Some(s("final"))).unwrap(), "final");
    assert!(select_authoritative_summary(s("streamed"), Some(s("  "))).is_err());
    assert!(select_authoritative_summary(s("streamed"), None).is_err());
}

#[test]
fn split_keeps_the_last_turns() {
    let messages: Vec<Message> = (1..=7)
        .map(|i| msg(i, if i == 4 { Role::Tool } else if i % 2 == 1 { Role::User } else { Role::Assistant }, "t"))
        .collect();
    let (head, tail) = split_for_compaction(&messages);
    assert_eq!(head.iter().map(|m| m.id).collect::<Vec<_>>(), vec![1, 2]);
    assert_eq!(tail.len(), 5);
    let (head, tail) = split_for_compaction(&messages[..3]);
    assert!(head.is_empty());
    assert_eq!(tail.len(), 3);
}

#[test]
fn pruning_drops_tool_results_and_estimates_shrink() {
    let mut m = msg(1, Role::Tool, "keep");
    m.parts.push(MessagePart::ToolResult(ToolResult { call_id: s("c"), name: s("read"), output: Json::Str(s("big")), is_error: false }));
    let pruned = prune_messages(&[m]);
    assert_eq!(pruned[0].parts.len(), 1);
    assert_eq!(estimate_compacted_context("12345678", &pruned), 3);
}

#[test]
fn records_carry_roles_and_text() {
    let head = vec![msg(1, Role::User, "hi"), msg(2, Role::Assistant, "yo")];
    let records = compaction_records(&head, Some("prev"));
    assert_eq!(records.len(), 3);
    let role = |j: &Json| j.get("role").and_then(|v| v.as_str()).cloned();
    let content = |j: &Json| j.get("content").and_then(|v| v.as_str()).cloned();
    assert_eq!(role(&records[0]), Some(s("previous_summary")));
    assert_eq!(content(&records[0]), Some(s("prev")));
    assert_eq!(role(&records[2]), Some(s("assistant")));
    assert_eq!(content(&records[2]), Some(s("yo")));
    assert_eq!(compaction_records(&head, None).len(), 2);
}

#[test]
fn chunks_reassemble_to_the_summary() {
    let summary = "**Objective**\n- ünïcödé goal";
    let chunks = chunk_summary_for_streaming(summary, 5);
    assert_eq!(chunks.concat(), summary);
    assert!(chunks.iter().all(|c| !c.is_empty() && c.chars().count() <= 5));
}

#[test]
fn compaction_outcome_keeps_the_final_response_and_the_session_figures() {
    let items = vec![
        StreamItem::Text(s("chatter")),
        StreamItem::FinalResponse(s("draft")),
        StreamItem::FinalResponse(s(GOOD)),
    ];
    let (result, chunks) = compaction_outcome(&items, 12, 900, 1000).unwrap();
    assert_eq!(result.summary, GOOD);
    assert_eq!(result.thought_duration_ms, 12);
    assert_eq!(result.tokens_before, 900);
    assert_eq!(result.context_limit, 1000);
    assert_eq!(chunks.concat(), GOOD);
    assert!(chunks.iter().all(|c| c.chars().count() <= 24));
}

#[test]
fn compaction_outcome_sends_nothing_for_a_rejected_summary() {
    let bad = vec![StreamItem::FinalResponse(s("just chatting"))];
    match compaction_outcome(&bad, 0, 1, 2) {
        Err(EngineError::Other(m)) => assert_eq!(m, "compaction agent returned an invalid summary schema"),
        _ => panic!("expected the schema error"),
    }
    match compaction_outcome(&vec![StreamItem::Text(s(GOOD))], 0, 1, 2) {
        Err(EngineError::Other(m)) => assert_eq!(m, "compaction agent returned no final response"),
        _ => panic!("expected the missing-response error"),
    }
    match compaction_outcome(&vec![StreamItem::Failed(s("boom")), StreamItem::FinalResponse(s(GOOD))], 0, 1, 2) {
        Err(EngineError::Other(m)) => assert_eq!(m, "compaction agent failed: boom"),
        _ => panic!("expected the stream failure"),
    }
}

#[test]
fn compaction_prompt_frames_the_records() {
    assert_eq!(
        build_compaction_prompt("{\"history\":[],\"memory\":\"\"}"),
        "Untrusted records (JSON):\n{\"history\":[],\"memory\":\"\"}\n\nRequest:\nCompact the records above now. Return only the required four-section summary."
    );
}

#[test]
fn summary_frame_wraps_the_summary() {
    let (user, ack) = mewcode::compaction::history::summary_frame("S");
    assert_eq!(user, "[Previous conversation summary]\n\nS\n\n[End of summary — continue from here]");
    assert_eq!(ack, "Understood. I'll continue from where we left off.");
}

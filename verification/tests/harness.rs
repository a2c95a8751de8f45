use mewcode::agent::stream::{StreamItem, TurnUsage};
use mewcode::compaction::summary::collect_summary;
use mewcode::compaction::CompactionResult;
use mewcode::error::EngineError;
use mewcode::harness::completion::turn_user_text;
use mewcode::harness::completion::{
    dir_mention, format_file_context, last_user_text, mention_request, mentioned_paths,
    referenced_files, user_text_with_file_context,
};
use mewcode::harness::turn::{blocked_error, prior_message_count, reply_events, with_memory_section, TurnEvent};
use mewcode::harness::turn_history::{finish_turn_history, plan_turn_history, CompactionBlocked, HistoryStep, TurnHistory};
use mewcode::harness::{fallback_summary, should_retry_after_compaction, truncate_fallback, AttemptError, CompactionCheckpoint, CompactionMode, CompactionState};
use mewcode::message::{Message, MessagePart, Role};

fn s(text: &str) -> String {
    text.to_string()
}

fn msg(id: u128, role: Role, text: &str) -> Message {
    Message { id, role, parts: vec![MessagePart::Text { text: s(text) }], model: None, created_at: 0 }
}

fn transcript(n: u128) -> Vec<Message> {
    (1..=n).map(|i| msg(i, if i % 2 == 1 { Role::User } else { Role::Assistant }, &format!("m{i}"))).collect()
}

fn result(summary: &str) -> Result<CompactionResult, EngineError> {
    Ok(CompactionResult { summary: s(summary), thought_duration_ms: 7, tokens_before: 100, context_limit: 1000 })
}

#[test]
fn compaction_folds_the_head_and_moves_the_boundary() {
    let prior = transcript(6);
    let mut state = CompactionState::new();
    let job = match plan_turn_history(&mut state, &prior, CompactionMode::Automatic, true) {
        HistoryStep::Compact(job) => job,
        other => panic!("expected compaction, got {other:?}"),
    };
    assert_eq!(job.compacted_up_to, 0);
    assert_eq!(job.head.iter().map(|m| m.id).collect::<Vec<_>>(), vec![1, 2]);
    assert_eq!(job.tail.iter().map(|m| m.id).collect::<Vec<_>>(), vec![3, 4, 5, 6]);
    let (history, thought) = finish_turn_history(&mut state, CompactionMode::Automatic, job, result("  S  ")).unwrap();
    assert_eq!(thought, 7);
    match history {
        TurnHistory::Compacted { summary, tail } => {
            assert_eq!(summary, "  S  ");
            assert_eq!(tail.len(), 4);
        }
        other => panic!("unexpected {other:?}"),
    }
    assert_eq!(state.updated_compaction(), Some(("S", 2, 2)));
    assert_eq!(state.session_tokens(), 3);
    match plan_turn_history(&mut state, &prior, CompactionMode::Automatic, false) {
        HistoryStep::Ready(Ok(TurnHistory::SummaryTail { summary, from })) => {
            assert_eq!((summary.as_str(), from), ("S", 2));
        }
        other => panic!("unexpected {other:?}"),
    }
}

#[test]
fn failed_summaries_keep_the_boundary() {
    let prior = transcript(6);
    let mut state = CompactionState::new();
    let job = match plan_turn_history(&mut state, &prior, CompactionMode::Forced, false) {
        HistoryStep::Compact(job) => job,
        other => panic!("expected compaction, got {other:?}"),
    };
    match finish_turn_history(&mut state, CompactionMode::Forced, job, result("   ")) {
        Err(CompactionBlocked::SummaryUnavailable(EngineError::Other(m))) => {
            assert_eq!(m, "compaction returned an empty summary")
        }
        other => panic!("unexpected {other:?}"),
    }
    assert_eq!(state.updated_compaction(), None);
    let job = match plan_turn_history(&mut state, &prior, CompactionMode::Automatic, true) {
        HistoryStep::Compact(job) => job,
        other => panic!("expected compaction, got {other:?}"),
    };
    let kept = finish_turn_history(&mut state, CompactionMode::Automatic, job, Err(EngineError::Aborted));
    assert!(matches!(kept, Ok((TurnHistory::Full, 0))));
}

#[test]
fn forced_compaction_with_too_little_history_is_blocked() {
    let prior = transcript(3);
    let mut state = CompactionState::new();
    let step = plan_turn_history(&mut state, &prior, CompactionMode::Forced, false);
    assert!(matches!(step, HistoryStep::Ready(Err(CompactionBlocked::NothingToCompact))));
    let step = plan_turn_history(&mut state, &prior, CompactionMode::Automatic, true);
    assert!(matches!(step, HistoryStep::Ready(Ok(TurnHistory::Full))));
    match blocked_error(CompactionBlocked::NothingToCompact) {
        EngineError::ContextOverflow(m) => assert_eq!(m, "no compactable history remains after context overflow"),
        other => panic!("unexpected {other:?}"),
    }
}

#[test]
fn stale_checkpoints_are_dropped() {
    let prior = transcript(4);
    let mut state = CompactionState::new();
    assert!(state.install_checkpoint(s(" sum "), 2, 99));
    assert!(state.checkpoint_for_history(&prior).is_none());
    assert!(state.updated_compaction().is_none());
    assert!(state.install_checkpoint(s("sum"), 2, 2));
    let c = state.checkpoint_for_history(&prior).expect("matches");
    assert_eq!((c.summary.as_str(), c.up_to), ("sum", 2));
    assert!(!state.install_checkpoint(s("  "), 2, 2));
    assert!(CompactionCheckpoint::new(Some(s("x")), 0, Some(1)).is_none());
    assert!(CompactionCheckpoint::new(Some(s("x")), 1, None).is_none());
}

#[test]
fn turn_steps() {
    let messages = vec![msg(1, Role::User, "a"), msg(2, Role::Assistant, "b"), msg(3, Role::User, "c"), msg(4, Role::Tool, "d")];
    assert_eq!(prior_message_count(&messages), 2);
    assert_eq!(prior_message_count(&[]), 0);
    let mut state = CompactionState::new();
    state.record_turn_usage(&TurnUsage { input_tokens: 0, output_tokens: 0, cached_input_tokens: 0, cache_creation_input_tokens: 0 });
    assert_eq!(state.session_tokens(), 0);
    state.record_turn_usage(&TurnUsage { input_tokens: 10, output_tokens: 5, cached_input_tokens: 0, cache_creation_input_tokens: 1 });
    assert_eq!(state.session_tokens(), 16);
    assert_eq!(with_memory_section("P", Some("<memory>\nm\n</memory>")), "P\n\n<memory>\nm\n</memory>");
    assert_eq!(with_memory_section("P", None), "P");
    assert!(matches!(&reply_events("", "plan", "m1", 7, 0)[..],
        [TurnEvent::Start { mode, model }, TurnEvent::Finish { input_tokens: None, output_tokens: None, session_tokens: Some(7), context_limit: None }]
        if mode == "plan" && model == "m1"));
    assert!(matches!(&reply_events("hi", "build", "m2", 9, 1000)[..],
        [TurnEvent::Start { mode, model }, TurnEvent::TextDelta { delta }, TurnEvent::Finish { input_tokens: None, output_tokens: None, session_tokens: Some(9), context_limit: Some(1000) }]
        if mode == "build" && model == "m2" && delta == "hi"));
    let overflow = AttemptError::new(EngineError::ContextOverflow(s("x")), false);
    assert!(should_retry_after_compaction(&overflow));
    assert!(!should_retry_after_compaction(&AttemptError::new(EngineError::ContextOverflow(s("x")), true)));
    assert!(!should_retry_after_compaction(&AttemptError::new(EngineError::Aborted, false)));
}

#[test]
fn prompt_selection_and_file_mentions() {
    let mut last = msg(3, Role::User, "look at @b.rs and @a.rs, please");
    last.parts.push(MessagePart::FileMention { path: s("b.rs") });
    let messages = vec![msg(1, Role::User, "old"), msg(2, Role::Assistant, "reply"), last];
    assert_eq!(last_user_text(&messages), Some(s("look at @b.rs and @a.rs, please")));
    assert_eq!(last_user_text(&messages[1..2]), None);
    let (text, paths) = mention_request(&messages).unwrap();
    assert_eq!(text, "look at @b.rs and @a.rs, please");
    assert_eq!(paths, vec![s("a.rs"), s("b.rs")]);
    assert_eq!(mentioned_paths("see @src/main.rs, and @docs/. @ @:"), vec![s("src/main.rs"), s("docs/")]);
    assert_eq!(dir_mention("src//"), Some(s("src")));
    assert_eq!(dir_mention("a.rs"), None);
    let expanded: Vec<String> = (0..12).rev().map(|i| format!("f{i:02}")).chain([s("f03")]).collect();
    let files = referenced_files(&expanded);
    assert_eq!(files, (0..10).map(|i| format!("f{i:02}")).collect::<Vec<_>>());
}

#[test]
fn file_sections_wrap_the_prompt() {
    assert_eq!(format_file_context("a.rs", &Ok((s("fn main(){}"), false))), "\n@a.rs\n```\nfn main(){}\n```\n");
    assert_eq!(format_file_context("a.rs", &Ok((s("x"), true))), "\n@a.rs\n```\nx\n[truncated]\n```\n");
    assert_eq!(format_file_context("a.rs", &Err(s("missing"))), "\n@a.rs\n[not loaded: missing]\n");
    assert_eq!(user_text_with_file_context("hi", &vec![]), "hi");
    let sections = vec![format_file_context("a", &Ok((s("x"), false)))];
    assert_eq!(
        user_text_with_file_context("hi", &sections),
        "Referenced files:\n\n@a\n```\nx\n```\n\nUser message:\nhi"
    );
}

#[test]
fn fallback_summary_lists_roles_and_truncates() {
    let messages = vec![msg(1, Role::User, "hi"), msg(2, Role::Assistant, "hello"), msg(3, Role::Tool, "ok")];
    assert_eq!(fallback_summary(&messages), "User: hi\nAssistant: hello\nTool: ok");
    assert_eq!(truncate_fallback(s("short"), 10), "short");
    let cut = truncate_fallback("x".repeat(40), 20);
    assert_eq!(cut, format!("{}\n[...truncated]", "x".repeat(5)));
    assert_eq!(truncate_fallback(s("héllo"), 2), "h");
}

#[test]
fn collected_summary_is_the_final_response() {
    let items = vec![StreamItem::Text(s("thinking")), StreamItem::FinalResponse(s("done")), StreamItem::Other];
    assert_eq!(collect_summary(&items).unwrap(), "done");
    match collect_summary(&vec![StreamItem::Failed(s("net"))]) {
        Err(EngineError::Other(m)) => assert_eq!(m, "compaction agent failed: net"),
        other => panic!("unexpected {other:?}"),
    }
    match collect_summary(&vec![StreamItem::Text(s("x"))]) {
        Err(EngineError::Other(m)) => assert_eq!(m, "compaction agent returned no final response"),
        other => panic!("unexpected {other:?}"),
    }
}

#[test]
fn a_turn_needs_a_user_message() {
    let history = vec![
        Message { id: 1, role: Role::User, parts: vec![MessagePart::Text { text: "hello".to_string() }], model: None, created_at: 0 },
    ];
    assert_eq!(turn_user_text(&history).unwrap(), "hello");
    match turn_user_text(&[]) {
        Err(EngineError::Other(m)) => assert_eq!(m, "no user message in chat history"),
        other => panic!("unexpected {other:?}"),
    }
}

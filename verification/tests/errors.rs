use mewcode::error::{contains_context_overflow, engine_error_parts, retryable_status, EngineError, ErrorCode};

fn s(text: &str) -> String {
    text.to_string()
}

#[test]
fn messages_follow_each_variant() {
    assert_eq!(EngineError::MissingApiKey.message(), "OPENCODE_GO_API_KEY is not set");
    assert_eq!(EngineError::MissingNativeApiKey(s("OPENAI_API_KEY")).message(), "OPENAI_API_KEY is not set");
    assert_eq!(EngineError::UpstreamStatus { status: 500, body: s("bad") }.message(), "upstream returned 500: bad");
    assert_eq!(EngineError::Tool { tool: s("bash"), message: s("x") }.message(), "tool error in bash: x");
    assert_eq!(EngineError::Aborted.message(), "aborted");
    assert_eq!(EngineError::ContextOverflow(s("big")).message(), "context overflow: big");
    assert_eq!(EngineError::Serde(s("eof")).message(), "serialization error: eof");
    assert_eq!(EngineError::Upstream(s("reset")).message(), "upstream error: reset");
    assert_eq!(EngineError::Other(s("plain")).message(), "plain");
}

#[test]
fn context_overflow_is_recognised_case_insensitively() {
    assert!(contains_context_overflow("This model's Maximum Context Length is 8192"));
    assert!(contains_context_overflow("PROMPT IS TOO LONG"));
    assert!(!contains_context_overflow("rate limited"));
    assert!(EngineError::UpstreamStatus { status: 413, body: s("too many tokens") }.is_context_overflow());
    assert!(!EngineError::UpstreamStatus { status: 500, body: s("too many tokens") }.is_context_overflow());
    assert!(EngineError::ContextOverflow(s("")).is_context_overflow());
    assert!(EngineError::Other(s("context_length_exceeded")).is_context_overflow());
}

#[test]
fn statuses_and_parts() {
    assert!(retryable_status(503));
    assert!(!retryable_status(404));
    let (code, _, retry) = engine_error_parts(&EngineError::MissingApiKey);
    assert_eq!(code, ErrorCode::MissingApiKey);
    assert!(!retry);
}

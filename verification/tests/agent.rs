use mewcode::agent::provider::{route_provider, EngineConfig, EngineEnv, ModelKind, RouteError};
use mewcode::agent::stream::{StreamEvent, StreamFold, StreamItem, StreamStep, TurnUsage};
use mewcode::credential::ProviderId;
use mewcode::error::EngineError;
use mewcode::json::Json;

fn s(text: &str) -> String {
    text.to_string()
}

fn usage(a: u64, b: u64, c: u64, d: u64) -> TurnUsage {
    TurnUsage { input_tokens: a, output_tokens: b, cached_input_tokens: c, cache_creation_input_tokens: d }
}

fn events(step: StreamStep) -> (Vec<StreamEvent>, Option<Json>) {
    match step {
        StreamStep::Continue { events, display_args } => (events, display_args),
        StreamStep::Stop(e) => panic!("unexpected stop: {e:?}"),
    }
}

#[test]
fn usage_totals_and_emptiness() {
    assert_eq!(usage(1, 2, 3, 4).total(), 10);
    assert!(usage(0, 0, 0, 0).is_empty());
    assert!(!usage(0, 0, 1, 0).is_empty());
    let mut u = TurnUsage::default();
    u.record(&usage(1, 2, 3, 4));
    u.record(&usage(1, 1, 1, 1));
    assert_eq!((u.input_tokens, u.output_tokens, u.cached_input_tokens, u.cache_creation_input_tokens), (2, 3, 4, 5));
}

#[test]
fn stream_fold_streams_text_tools_and_usage() {
    let mut fold = StreamFold::new();
    let (ev, args) = events(fold.step(StreamItem::Text(s("Hel"))));
    assert!(args.is_none());
    assert!(matches!(&ev[..], [StreamEvent::TextDelta { delta }] if delta == "Hel"));
    let call_args = Json::Object(vec![(s("path"), Json::Str(s("a.rs")))]);
    let (ev, _) = events(fold.step(StreamItem::ToolCall { id: s("c1"), name: s("read"), arguments: call_args }));
    assert!(matches!(&ev[..], [StreamEvent::ToolInputAvailable { tool_call_id, tool_name, .. }] if tool_call_id == "c1" && tool_name == "read"));
    let (ev, args) = events(fold.step(StreamItem::ToolResult { id: s("c1"), output: Json::Str(s("ok")) }));
    assert!(matches!(&ev[..], [StreamEvent::ToolOutputAvailable { tool_call_id, .. }] if tool_call_id == "c1"));
    assert!(matches!(args, Some(Json::Object(ref m)) if m.len() == 1 && m[0].0 == "path"));
    let (_, args) = events(fold.step(StreamItem::ToolResult { id: s("zz"), output: Json::Null }));
    assert!(args.is_none());
    let (ev, _) = events(fold.step(StreamItem::CompletionCall(usage(1, 2, 3, 4))));
    assert!(ev.is_empty());
    fold.step(StreamItem::CompletionCall(usage(1, 2, 3, 4)));
    let (ev, _) = events(fold.step(StreamItem::FinalResponse(s("ignored"))));
    assert!(ev.is_empty(), "a final response after streamed text is not resent");
    fold.step(StreamItem::Text(s("lo")));
    fold.step(StreamItem::Other);
    match fold.step(StreamItem::Failed(s("boom"))) {
        StreamStep::Stop(EngineError::Other(m)) => assert_eq!(m, "boom"),
        other => panic!("expected stop, got {other:?}"),
    }
    let (reply, total) = fold.finish();
    assert_eq!(reply, "Hello");
    assert_eq!(total.total(), 20);
}

#[test]
fn final_response_fills_in_for_an_empty_stream() {
    let mut fold = StreamFold::new();
    let (ev, _) = events(fold.step(StreamItem::FinalResponse(s("Hi"))));
    assert!(matches!(&ev[..], [StreamEvent::TextDelta { delta }] if delta == "Hi"));
    let mut empty = StreamFold::new();
    let (ev, _) = events(empty.step(StreamItem::FinalResponse(s(""))));
    assert!(ev.is_empty());
    assert_eq!(fold.finish().0, "Hi");
    assert_eq!(empty.finish().0, "");
}

#[test]
fn a_later_call_with_the_same_id_replaces_its_arguments() {
    let mut fold = StreamFold::new();
    fold.step(StreamItem::ToolCall { id: s("c"), name: s("t"), arguments: Json::Str(s("first")) });
    fold.step(StreamItem::ToolCall { id: s("c"), name: s("t"), arguments: Json::Str(s("second")) });
    let (_, args) = events(fold.step(StreamItem::ToolResult { id: s("c"), output: Json::Null }));
    assert!(matches!(args, Some(Json::Str(ref v)) if v == "second"));
}

fn env() -> EngineEnv {
    EngineEnv {
        opencode_go_api_key: Some(s("  ")),
        base_url: None,
        opencode_zen_api_key: None,
        openai_api_key: Some(s("sk-1")),
        anthropic_api_key: Some(s("")),
        deepseek_api_key: Some(s("ds")),
        openrouter_api_key: None,
        default_model: Some(s("kimi-k2")),
    }
}

#[test]
fn config_drops_blank_keys_and_defaults_the_base_url() {
    let cfg = EngineConfig::from_env_values(env());
    assert_eq!(cfg.api_key, "");
    assert_eq!(cfg.base_url, "https://opencode.ai/zen/go/v1");
    assert_eq!(cfg.openai_api_key.as_deref(), Some("sk-1"));
    assert_eq!(cfg.anthropic_api_key, None);
    assert_eq!(cfg.openai_base_url, None);
    assert_eq!(cfg.default_model.as_deref(), Some("kimi-k2"));
}

#[test]
fn routes_pick_key_and_base_url_or_explain_why_not() {
    let cfg = EngineConfig::from_env_values(env());
    let route = route_provider(ProviderId::OpenAi, ModelKind::OpenAiResponses, true, &cfg).unwrap();
    assert_eq!((route.kind, route.api_key.as_str(), route.base_url.as_str()), (ModelKind::OpenAiResponses, "sk-1", "https://api.openai.com/v1"));
    let route = route_provider(ProviderId::DeepSeek, ModelKind::DeepSeek, true, &cfg).unwrap();
    assert_eq!(route.base_url, "https://api.deepseek.com");
    assert!(matches!(
        route_provider(ProviderId::OpenAi, ModelKind::AnthropicMessages, false, &cfg),
        Err(RouteError::UnsupportedProviderTransport { provider: ProviderId::OpenAi, kind: ModelKind::AnthropicMessages })
    ));
    assert!(matches!(
        route_provider(ProviderId::OpenCodeGo, ModelKind::OpenCodeGo, true, &cfg),
        Err(RouteError::Engine(EngineError::MissingApiKey))
    ));
    match route_provider(ProviderId::Anthropic, ModelKind::AnthropicMessages, true, &cfg) {
        Err(RouteError::Engine(EngineError::MissingNativeApiKey(name))) => assert_eq!(name, "ANTHROPIC_API_KEY"),
        other => panic!("unexpected {other:?}"),
    }
}

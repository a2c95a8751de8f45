use mewcode::mcp::{annotations_for, enabled_by_default, mcp_description, qualified_name, RemoteToolHints, MAX_TOOL_NAME};

#[test]
fn names_are_prefixed_sanitised_and_bounded() {
    assert_eq!(qualified_name("firecrawl", "firecrawl_scrape"), "mcp_firecrawl_firecrawl_scrape");
    assert_eq!(qualified_name("my.server", "do/it"), "mcp_my_server_do_it");
    assert_eq!(qualified_name("s", &"x".repeat(100)).len(), MAX_TOOL_NAME);
}

#[test]
fn unannotated_tool_is_treated_as_mutating() {
    let annotations = annotations_for(None);
    assert!(!annotations.read_only);
    assert!(annotations.destructive);
    assert!(annotations.open_world);
    assert!(!annotations.approval_exempt);
}

#[test]
fn read_only_hint_is_honoured() {
    let hints = RemoteToolHints {
        read_only_hint: Some(true),
        destructive_hint: None,
        idempotent_hint: None,
        open_world_hint: None,
    };
    let annotations = annotations_for(Some(hints));
    assert!(annotations.read_only);
    assert!(!annotations.destructive);
    assert!(mcp_description("fc", None, "search").starts_with("[MCP: fc] "));
}

#[test]
fn description_falls_back_to_the_tool_name() {
    assert_eq!(mcp_description("fc", Some("Scrape a page"), "scrape"), "[MCP: fc] Scrape a page");
    assert_eq!(mcp_description("fc", None, "scrape"), "[MCP: fc] scrape");
    assert!(enabled_by_default());
}

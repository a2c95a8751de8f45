use mewcode::view::cursor::text_with_cursor_marker;
use mewcode::view::layout::{composer_height, panel_footer, panel_visible_rows};
use mewcode::view::overlay::{
    active_overlay_text_input, connect_provider_key_text, cursor_to_row, fallback, format_model_row,
    format_session_row, model_search_layout, truncate_with_ellipsis, ConnectStep, Overlay, Row,
};
use mewcode::view::overlay::{choice_scroll, connect_provider_text, model_picker_footer, overlay_title};
use mewcode::view::{leading_skill_name, queue_display_height};

fn s(text: &str) -> String {
    text.to_string()
}

#[test]
fn cursor_marker_goes_at_the_cursor_or_the_end() {
    let lines = vec![s("ab"), s("cd")];
    assert_eq!(text_with_cursor_marker(&lines, 1, 1), "ab\nc\u{E000}d");
    assert_eq!(text_with_cursor_marker(&lines, 0, 0), "\u{E000}ab\ncd");
    assert_eq!(text_with_cursor_marker(&vec![s("ab")], 0, 9), "ab\u{E000}");
    assert_eq!(text_with_cursor_marker(&vec![s("ab")], 3, 0), "ab\u{E000}");
    assert_eq!(text_with_cursor_marker(&vec![], 0, 0), "\u{E000}");
}

#[test]
fn model_search_scrolls_to_keep_cursor_visible() {
    assert_eq!(model_search_layout("hello", 5, 3), (s("lo"), 2));
    assert_eq!(model_search_layout("hello", 0, 3), (s("hel"), 0));
    assert_eq!(model_search_layout("", 0, 10), (s(""), 0));
    assert_eq!(model_search_layout("ab", 9, 10), (s("ab"), 2));
}

#[test]
fn model_search_counts_wide_graphemes_as_two_columns() {
    assert_eq!(model_search_layout("日本語", 3, 5), (s("本語"), 4));
    assert_eq!(model_search_layout("e\u{301}x", 2, 10), (s("e\u{301}x"), 1));
}

#[test]
fn ellipsis_truncation() {
    assert_eq!(truncate_with_ellipsis("hello", 10, "…"), "hello");
    assert_eq!(truncate_with_ellipsis("hello", 4, "…"), "hel…");
    assert_eq!(truncate_with_ellipsis("hello", 3, "..."), "...");
    assert_eq!(truncate_with_ellipsis("hello", 4, "..."), "h...");
    assert_eq!(truncate_with_ellipsis("hello", 0, "…"), "");
}

#[test]
fn model_rows_keep_the_marker_and_drop_the_id_when_narrow() {
    assert_eq!(format_model_row("*", "GPT Five", "gpt-5", 30), "* GPT Five (gpt-5)");
    assert_eq!(format_model_row("*", "A very long display name", "id", 12), "* A v… (id)");
    assert_eq!(format_model_row("  ", "x", "y", 4), "  ");
    assert_eq!(format_model_row("*", "Name", "a-very-long-model-id", 10), "* Name");
}

#[test]
fn session_rows_pad_and_fall_back_to_the_title() {
    assert_eq!(format_session_row("Title", "m", 20), "  Title (m)  ");
    assert_eq!(format_session_row("T", "model", 2), "");
    assert_eq!(format_session_row("Long title", "a-long-model", 8), "  Long …  ");
}

#[test]
fn picker_cursor_maps_to_model_rows() {
    let rows = vec![
        Row::Header { label: s("OpenAI") },
        Row::Model { entry_idx: 0, is_current: false },
        Row::Model { entry_idx: 1, is_current: true },
        Row::Header { label: s("Other") },
        Row::Model { entry_idx: 2, is_current: false },
    ];
    assert_eq!(cursor_to_row(&rows, 0), 1);
    assert_eq!(cursor_to_row(&rows, 1), 2);
    assert_eq!(cursor_to_row(&rows, 2), 4);
    assert_eq!(cursor_to_row(&rows, 9), 4);
    assert_eq!(cursor_to_row(&[], 3), 0);
}

#[test]
fn overlay_text_inputs_and_key_text() {
    assert!(active_overlay_text_input(Overlay::ModelPicker, ConnectStep::PickProvider));
    assert!(active_overlay_text_input(Overlay::ConnectProvider, ConnectStep::EnterKey));
    assert!(!active_overlay_text_input(Overlay::ConnectProvider, ConnectStep::Validating));
    assert!(!active_overlay_text_input(Overlay::Closed, ConnectStep::EnterKey));
    assert_eq!(connect_provider_key_text(&vec![s("ab"), s("c")], &vec![s("d")]), "abcd");
    assert_eq!(fallback(0, 7), 7);
    assert_eq!(fallback(3, 7), 3);
}

#[test]
fn composer_header_and_skill_chip() {
    assert_eq!(queue_display_height(0), 1);
    assert_eq!(queue_display_height(2), 3);
    assert_eq!(queue_display_height(3), 4);
    assert_eq!(queue_display_height(9), 5);
    let skills = vec![s("review"), s("plan")];
    assert_eq!(leading_skill_name("/plan the work", Some(&skills)), Some(s("plan")));
    assert_eq!(leading_skill_name("/unknown x", Some(&skills)), None);
    assert_eq!(leading_skill_name("plan", Some(&skills)), None);
    assert_eq!(leading_skill_name("/plan", None), None);
}

#[test]
fn composer_grows_with_text_within_bounds() {
    assert_eq!(composer_height(0, 40), 2);
    assert_eq!(composer_height(3, 40), 4);
    assert_eq!(composer_height(50, 40), 10);
    assert_eq!(composer_height(50, 6), 4);
    assert_eq!(composer_height(50, 1), 2);
    assert_eq!(panel_visible_rows(12), 9);
    assert_eq!(panel_visible_rows(2), 0);
    assert_eq!(panel_footer(0, 0), " — ");
    assert_eq!(panel_footer(12, 4), " 5/12 ");
}

#[test]
fn overlay_titles_follow_the_overlay_and_connect_step() {
    assert_eq!(overlay_title(Overlay::Closed, ConnectStep::Done), None);
    assert_eq!(overlay_title(Overlay::ModelPicker, ConnectStep::Done), Some((s("Model"), Some(s("type to search, Esc close")))));
    assert_eq!(overlay_title(Overlay::ConnectProvider, ConnectStep::EnterKey), Some((s("Enter API Key"), None)));
    assert_eq!(overlay_title(Overlay::ConnectProvider, ConnectStep::Validating), Some((s("Validating..."), None)));
    assert_eq!(overlay_title(Overlay::Choice, ConnectStep::PickProvider), Some((s("Choose"), None)));
}

#[test]
fn model_picker_footer_counts_matches() {
    assert_eq!(model_picker_footer(false, 0, 3, 10), None);
    assert_eq!(model_picker_footer(true, 0, 0, 10), Some(s(" 0/10 ")));
    assert_eq!(model_picker_footer(true, 1, 3, 10), Some(s(" 2/3 · 3/10 ")));
}

#[test]
fn choice_scroll_follows_the_cursor_line() {
    let heights = vec![1, 1, 2, 1, 1, 3];
    assert_eq!(choice_scroll(&heights, 0, 4, 3), 0);
    assert_eq!(choice_scroll(&heights, 5, 0, 3), 4);
    assert_eq!(choice_scroll(&heights, 3, 2, 3), 2);
    assert_eq!(choice_scroll(&heights, 5, 100, 3), 6);
    assert_eq!(choice_scroll(&heights, 9, 1, 3), 0);
}

#[test]
fn connect_provider_text_per_step() {
    let names = vec![s("OpenCode Go"), s("OpenAI")];
    assert_eq!(
        connect_provider_text(ConnectStep::PickProvider, &names, Some(1), "", "", "", None),
        vec![s("Select a provider to connect:"), s("    OpenCode Go"), s("  ▶ OpenAI"), s(""), s("↑↓ select  Enter confirm  Esc cancel")]
    );
    assert_eq!(
        connect_provider_text(ConnectStep::EnterKey, &names, None, "OpenAI", "sk-", "█", Some("invalid key")),
        vec![s("Provider: OpenAI"), s(""), s("Enter your API key (type directly):"), s(""), s("  sk-█"), s(""), s("✗ invalid key"), s(""), s("Enter submit  Esc cancel")]
    );
    assert_eq!(connect_provider_text(ConnectStep::Validating, &names, None, "", "", "", None), vec![s("Validating API key...")]);
    assert_eq!(
        connect_provider_text(ConnectStep::Done, &names, None, "", "", "", None),
        vec![s("✓ Connected successfully!"), s(""), s("Enter or Esc to close")]
    );
}

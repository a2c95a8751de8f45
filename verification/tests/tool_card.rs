use mewcode::json::Json;
use mewcode::view::tool_card::{
    decimal_width, diff_card, display_clip, pad_display, render_diff, summarise_json, tool_call_label,
    tool_result_body_lines, tool_result_header_text, truncate_one_line, ChangeKind, DiffDisplay,
    LineChange,
};

fn s(text: &str) -> String {
    text.to_string()
}

#[test]
fn truncate_one_line_cuts_to_first_line_and_cap() {
    assert_eq!(truncate_one_line("hello", 10), "hello");
    assert_eq!(truncate_one_line("hello world", 5), "hell…");
    assert_eq!(truncate_one_line("a\nb", 10), "a…");
    assert_eq!(truncate_one_line("x", 0), "…");
    assert_eq!(truncate_one_line("", 3), "");
    assert_eq!(truncate_one_line("abc", 3), "abc");
    assert_eq!(truncate_one_line("abcd", 3), "ab…");
}

#[test]
fn decimal_width_counts_digits() {
    assert_eq!(decimal_width(0), 1);
    assert_eq!(decimal_width(9), 1);
    assert_eq!(decimal_width(10), 2);
    assert_eq!(decimal_width(12345), 5);
    assert_eq!(decimal_width(u64::MAX), 20);
}

#[test]
fn display_clip_uses_column_widths() {
    assert_eq!(display_clip("hello", 10), "hello");
    assert_eq!(display_clip("hello world", 5), "hell…");
    assert_eq!(display_clip("日本語", 4), "日…");
    assert_eq!(display_clip("abc", 0), "…");
}

#[test]
fn pad_display_pads_to_columns() {
    assert_eq!(pad_display("ab", 4), "ab  ");
    assert_eq!(pad_display("日", 3), "日 ");
    assert_eq!(pad_display("abc", 2), "abc");
}

#[test]
fn result_header_names_outcome() {
    assert_eq!(tool_result_header_text("bash", false), "▸ bash ok");
    assert_eq!(tool_result_header_text("bash", true), "▸ bash error");
}

#[test]
fn summarise_json_scalars_arrays_and_sorted_objects() {
    assert_eq!(summarise_json(&Json::Null), "");
    assert_eq!(summarise_json(&Json::Bool(true)), "true");
    assert_eq!(summarise_json(&Json::Number(s("42"))), "42");
    assert_eq!(summarise_json(&Json::Str(s("hi"))), "hi");
    assert_eq!(summarise_json(&Json::Array(vec![Json::Null])), "[1 item]");
    assert_eq!(summarise_json(&Json::Array(vec![Json::Null, Json::Null, Json::Null])), "[3 items]");
    let long = "é".repeat(13);
    let obj = Json::Object(vec![
        (s("b"), Json::Str(s("x"))),
        (s("a"), Json::Null),
        (s("c"), Json::Str(long)),
    ]);
    assert_eq!(summarise_json(&obj), "{a, b: x, c: …}");
}

#[test]
fn call_label_inlines_argument_summary() {
    let input = Json::Object(vec![(s("path"), Json::Str(s("src/main.rs")))]);
    assert_eq!(tool_call_label("read_file", &input), "read_file({path: src/main.rs})");
    let long = Json::Str("x".repeat(100));
    let label = tool_call_label("t", &long);
    assert_eq!(label.chars().count(), "t()".len() + 60);
    assert!(label.ends_with("…)"));
}

#[test]
fn result_body_previews_two_lines() {
    let out = tool_result_body_lines(&Json::Str(s("line1\nline2\nline3")), false);
    assert_eq!(out, vec![s("⎿ line1"), s("  line2…")]);
    let err = tool_result_body_lines(&Json::Str(s("oops")), true);
    assert_eq!(err, vec![s("⎿ error: oops")]);
    assert!(tool_result_body_lines(&Json::Null, false).is_empty());
}

#[test]
fn render_diff_shows_changed_lines_with_gutter() {
    let diff = DiffDisplay {
        path: s("f.txt"),
        old: s("a\nb\nc\n"),
        new: s("a\nB\nc\n"),
        start_line: None,
        truncated: false,
    };
    let card = render_diff(&diff).expect("line numbers fit");
    assert_eq!(card.path, "f.txt");
    assert_eq!((card.adds, card.dels), (1, 1));
    assert!(!card.elided);
    assert_eq!(card.rows.len(), 2);
    assert!(!card.rows[0].added);
    assert_eq!(card.rows[0].gutter, "  2 ");
    assert_eq!(card.rows[0].body, "- b ");
    assert!(card.rows[1].added);
    assert_eq!(card.rows[1].body, "+ B ");
}

#[test]
fn diff_card_pads_contents_and_marks_elision() {
    let changes = vec![
        LineChange { kind: ChangeKind::Insert, old_index: None, new_index: Some(0), value: s("x\n") },
        LineChange { kind: ChangeKind::Equal, old_index: Some(0), new_index: Some(1), value: s("y\n") },
        LineChange { kind: ChangeKind::Delete, old_index: Some(9), new_index: None, value: s("long\r\n") },
    ];
    let card = diff_card("p", &changes, Some(95), true).expect("fits");
    assert_eq!((card.adds, card.dels), (1, 1));
    assert!(card.elided);
    assert_eq!(card.rows[0].gutter, "  95 ");
    assert_eq!(card.rows[0].body, "+ x    ");
    assert_eq!(card.rows[1].gutter, " 104 ");
    assert_eq!(card.rows[1].body, "- long ");
    assert!(diff_card("p", &changes, Some(u64::MAX), false).is_none());
}

use mewcode::context::todos::{assign_ids, uuid_string, TodoItem, TodoStatus, TodoStore};
use mewcode::json::Json;
use mewcode::tools::error::ToolError;
use mewcode::tools::todo::{parse_list, parse_status, summarize, TodoReadTool};

fn s(text: &str) -> String {
    text.to_string()
}

fn entry(content: &str, status: &str) -> Json {
    Json::Object(vec![(s("content"), Json::Str(s(content))), (s("status"), Json::Str(s(status)))])
}

fn input(items: Vec<Json>) -> Json {
    Json::Object(vec![(s("todos"), Json::Array(items))])
}

fn invalid_message(r: Result<Vec<TodoItem>, ToolError>) -> String {
    match r {
        Err(ToolError::InvalidInput { message, .. }) => message,
        other => panic!("expected invalid input, got {other:?}"),
    }
}

#[test]
fn statuses_parse_by_name() {
    assert_eq!(parse_status("pending"), Some(TodoStatus::Pending));
    assert_eq!(parse_status("in_progress"), Some(TodoStatus::InProgress));
    assert_eq!(parse_status("completed"), Some(TodoStatus::Completed));
    assert_eq!(parse_status("done"), None);
}

#[test]
fn a_valid_list_parses_with_trimmed_content() {
    let items = parse_list(&input(vec![entry("  write tests ", "in_progress"), entry("ship", "pending")])).unwrap();
    assert_eq!(items.len(), 2);
    assert_eq!(items[0].content, "write tests");
    assert_eq!(items[0].status, TodoStatus::InProgress);
    assert_eq!(items[1].id, None);
}

#[test]
fn each_rejection_names_its_reason() {
    assert_eq!(invalid_message(parse_list(&Json::Null)), "missing `todos` array");
    let many: Vec<Json> = (0..33).map(|_| entry("x", "pending")).collect();
    assert_eq!(invalid_message(parse_list(&input(many))), "too many todos (33 > 32)");
    assert_eq!(invalid_message(parse_list(&input(vec![Json::Null]))), "each todo must be an object");
    assert_eq!(invalid_message(parse_list(&input(vec![entry("   ", "pending")]))), "each todo needs non-empty `content`");
    let no_status = Json::Object(vec![(s("content"), Json::Str(s("x")))]);
    assert_eq!(invalid_message(parse_list(&input(vec![no_status]))), "each todo needs a `status`");
    assert_eq!(invalid_message(parse_list(&input(vec![entry("x", "done")]))), "unknown status \"done\"");
}

#[test]
fn summary_counts_each_state() {
    let items = vec![
        TodoItem { id: None, content: s("a"), status: TodoStatus::Pending },
        TodoItem { id: None, content: s("b"), status: TodoStatus::Completed },
        TodoItem { id: None, content: s("c"), status: TodoStatus::Pending },
    ];
    assert_eq!(summarize(&items), "3 todos · 2 pending, 1 completed");
    assert_eq!(summarize(&[]), "0 todos · ");
}

#[test]
fn ids_follow_positions_and_the_section_lists_items() {
    let items = vec![
        TodoItem { id: Some(s("keep")), content: s("a"), status: TodoStatus::Completed },
        TodoItem { id: None, content: s("b"), status: TodoStatus::InProgress },
    ];
    let assigned = assign_ids(&items);
    assert_eq!(assigned[0].id.as_deref(), Some("keep"));
    assert_eq!(assigned[1].id.as_deref(), Some("2"));
    let store = TodoStore::for_session(&vec![s("data")], 1);
    assert_eq!(
        store.format(&assigned).unwrap(),
        "<todos>\n[x] (keep) completed: a\n[~] (2) in_progress: b</todos>"
    );
    assert_eq!(store.format(&[]), None);
}

#[test]
fn store_path_names_the_session_uuid() {
    let store = TodoStore::for_session(&vec![s("/home"), s(".mew")], 1);
    assert_eq!(
        store.path(),
        &vec![s("/home"), s(".mew"), s("todos"), s("00000000-0000-0000-0000-000000000001.json")]
    );
    let _tool = TodoReadTool::new(store);
}

#[test]
fn uuid_text_is_hyphenated_lowercase_hex() {
    assert_eq!(uuid_string(0), "00000000-0000-0000-0000-000000000000");
    let id: u128 = 0xa1a2a3a4_b1b2_c1c2_d1d2_d3d4d5d6d7d8;
    assert_eq!(uuid_string(id), "a1a2a3a4-b1b2-c1c2-d1d2-d3d4d5d6d7d8");
    for id in [1u128, u128::MAX, 0x0123456789abcdef0123456789abcdef, id] {
        assert_eq!(uuid_string(id), uuid::Uuid::from_u128(id).to_string());
    }
}

use mewcode::context::todos::{TodoItem, TodoStatus};
use mewcode::view::{dock_height, DOCK_MAX_ROWS};

fn item(content: &str, status: TodoStatus) -> TodoItem {
    TodoItem { id: None, content: content.to_string(), status }
}

#[test]
fn dock_height_hides_when_empty_and_caps_at_max() {
    assert_eq!(dock_height(&[], false), 0);
    let many: Vec<TodoItem> = (0..20).map(|i| item(&format!("t{i}"), TodoStatus::Pending)).collect();
    assert_eq!(dock_height(&many, false), DOCK_MAX_ROWS + 1);
}

#[test]
fn dock_collapses_to_header() {
    let one = vec![item("a", TodoStatus::Pending)];
    assert_eq!(dock_height(&one, false), 2);
    assert_eq!(dock_height(&one, true), 1);
}

#[test]
fn all_completed_list_hides_dock_until_next_task() {
    let mut todos = vec![item("a", TodoStatus::Completed), item("b", TodoStatus::Completed)];
    assert_eq!(dock_height(&todos, false), 0);
    todos.push(item("c", TodoStatus::InProgress));
    assert_eq!(dock_height(&todos, false), 4);
}

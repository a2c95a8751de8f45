//! Todo dock sizing.

use vstd::prelude::*;

use crate::context::todos::{todos_view, TodoItem, TodoStatus, TodoV};

verus! {

/// Maximum item rows the dock may occupy when expanded.
pub const DOCK_MAX_ROWS: u16 = 10;

/// Every item is completed (and there is at least one).
pub open spec fn all_completed(ts: Seq<TodoV>) -> bool {
    ts.len() > 0 && forall|i: int| 0 <= i < ts.len() ==> ts[i].status == TodoStatus::Completed
}

/// Dock height: hidden when the list is empty or fully completed; the header
/// row only when collapsed; otherwise the header plus the item rows, at most
/// [`DOCK_MAX_ROWS`]. The item count is taken as a `u16`, as the renderer does.
pub open spec fn spec_dock_height(ts: Seq<TodoV>, collapsed: bool) -> int {
    if ts.len() == 0 || all_completed(ts) {
        0
    } else if collapsed {
        1
    } else {
        let n = (ts.len() % 65536) as int;
        (if n < DOCK_MAX_ROWS {
            n
        } else {
            DOCK_MAX_ROWS as int
        }) + 1
    }
}

/// Height of the todo dock for the current list.
pub fn dock_height(todos: &[TodoItem], collapsed: bool) -> (r: u16)
    ensures
        r == spec_dock_height(todos_view(todos@), collapsed),
{
    if todos.len() == 0 {
        return 0;
    }
    let mut all_done = true;
    let mut i: usize = 0;
    while i < todos.len()
        invariant
            i <= todos@.len(),
            all_done == forall|j: int| 0 <= j < i ==> todos@[j].status == TodoStatus::Completed,
        decreases todos@.len() - i,
    {
        if todos[i].status != TodoStatus::Completed {
            all_done = false;
        }
        i += 1;
    }
    proof {
        let v = todos_view(todos@);
        assert(all_done == all_completed(v)) by {
            if all_done {
                assert forall|j: int| 0 <= j < v.len() implies v[j].status == TodoStatus::Completed by {
                    assert(v[j] == todos@[j]@);
                }
            } else {
                let j = choose|j: int| 0 <= j < todos@.len() && todos@[j].status != TodoStatus::Completed;
                assert(v[j] == todos@[j]@);
            }
        }
    }
    if all_done {
        0
    } else if collapsed {
        1
    } else {
        let n = (todos.len() % 65536) as u16;
        (if n < DOCK_MAX_ROWS {
            n
        } else {
            DOCK_MAX_ROWS
        }) + 1
    }
}

} // verus!

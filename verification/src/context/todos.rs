//! The per-session task list: its items, the id assignment made when it is
//! saved, and its system-prompt section.

use vstd::prelude::*;

use crate::context::memory::{hex_char, hex_digit, lemma_pow16_step, pow16};
use crate::text::{chars_of, decimal, extend_chars, extend_str, push_decimal, string_of, trim_end};

verus! {

/// Upper bound on the number of todo items a list may hold.
pub const MAX_TODOS: usize = 32;

/// Directory (under the data dir) for per-session todo files.
pub const TODOS_DIR: &'static str = "todos";

/// Progress of one task.
#[derive(Debug, Clone, Copy, PartialEq, Eq, Structural)]
pub enum TodoStatus {
    Pending,
    InProgress,
    Completed,
}

/// One task of the list.
#[derive(Debug)]
pub struct TodoItem {
    pub id: Option<String>,
    pub content: String,
    pub status: TodoStatus,
}

/// The value of a task.
pub struct TodoV {
    pub id: Option<Seq<char>>,
    pub content: Seq<char>,
    pub status: TodoStatus,
}

impl View for TodoItem {
    type V = TodoV;

    open spec fn view(&self) -> TodoV {
        TodoV {
            id: match self.id {
                Some(s) => Some(s@),
                None => None,
            },
            content: self.content@,
            status: self.status,
        }
    }
}

/// The values of a list of tasks.
pub open spec fn todos_view(ts: Seq<TodoItem>) -> Seq<TodoV> {
    Seq::new(ts.len(), |i: int| ts[i]@)
}

/// `n` as 32 lowercase hex digits, most significant first.
pub open spec fn hex32(n: u128) -> Seq<char> {
    Seq::new(32, |i: int| hex_digit(((n as nat) / pow16((31 - i) as nat)) % 16))
}

/// The hyphenated lowercase text of the UUID whose value is `id`
/// (`8-4-4-4-12` hex digits, most significant first).
pub open spec fn uuid_text(id: u128) -> Seq<char> {
    let h = hex32(id);
    h.subrange(0, 8) + "-"@ + h.subrange(8, 12) + "-"@ + h.subrange(12, 16) + "-"@ + h.subrange(
        16,
        20,
    ) + "-"@ + h.subrange(20, 32)
}

fn hex32_digits(n: u128) -> (r: Vec<char>)
    ensures
        r@ == hex32(n),
{
    let mut digits: Vec<char> = Vec::new();
    let mut rest: u128 = n;
    let mut k: usize = 0;
    proof {
        assert(pow16(0) == 1);
        assert((n as nat) / 1 == n as nat);
    }
    while k < 32
        invariant
            k <= 32,
            digits@.len() == k,
            rest as nat == (n as nat) / pow16(k as nat),
            forall|j: int|
                0 <= j < k ==> #[trigger] digits@[j] == hex_digit(((n as nat) / pow16(j as nat)) % 16),
        decreases 32 - k,
    {
        proof {
            lemma_pow16_step(k as nat);
            vstd::arithmetic::div_mod::lemma_div_denominator((n as nat) as int, pow16(k as nat) as int, 16);
            assert(pow16(k as nat) * 16 == 16 * pow16(k as nat)) by (nonlinear_arith);
        }
        let d: u128 = rest % 16;
        digits.push(hex_char(d as u64));
        rest = rest / 16;
        k += 1;
    }
    let mut out: Vec<char> = Vec::new();
    let mut j: usize = 32;
    while j > 0
        invariant
            j <= 32,
            digits@.len() == 32,
            forall|t: int|
                0 <= t < 32 ==> #[trigger] digits@[t] == hex_digit(((n as nat) / pow16(t as nat)) % 16),
            out@ == hex32(n).take(32 - j),
        decreases j,
    {
        out.push(digits[j - 1]);
        proof {
            assert(hex32(n)[32 - j] == digits@[j - 1]);
            assert(hex32(n).take(32 - j + 1) =~= hex32(n).take(32 - j).push(hex32(n)[32 - j]));
        }
        j -= 1;
    }
    assert(hex32(n).take(32) =~= hex32(n));
    out
}

fn push_range(out: &mut Vec<char>, src: &Vec<char>, lo: usize, hi: usize)
    requires
        lo <= hi <= src@.len(),
    ensures
        final(out)@ == old(out)@ + src@.subrange(lo as int, hi as int),
{
    let mut i: usize = lo;
    while i < hi
        invariant
            lo <= i <= hi <= src@.len(),
            out@ == old(out)@ + src@.subrange(lo as int, i as int),
        decreases hi - i,
    {
        out.push(src[i]);
        assert(src@.subrange(lo as int, i + 1) =~= src@.subrange(lo as int, i as int).push(src@[i as int]));
        i += 1;
    }
}

/// The hyphenated lowercase text of the UUID whose value is `id`.
pub fn uuid_string(id: u128) -> (r: String)
    ensures
        r@ == uuid_text(id),
{
    let h = hex32_digits(id);
    let mut out: Vec<char> = Vec::new();
    push_range(&mut out, &h, 0, 8);
    out.push('-');
    push_range(&mut out, &h, 8, 12);
    out.push('-');
    push_range(&mut out, &h, 12, 16);
    out.push('-');
    push_range(&mut out, &h, 16, 20);
    out.push('-');
    push_range(&mut out, &h, 20, 32);
    let r = string_of(&out);
    proof {
        reveal_strlit("-");
        assert(r@ =~= uuid_text(id));
    }
    r
}

/// A durable per-session task list stored as one JSON file.
#[derive(Debug)]
pub struct TodoStore {
    path: Vec<String>,
}

impl TodoStore {
    /// The file's path components.
    pub closed spec fn spec_path(&self) -> Seq<Seq<char>> {
        Seq::new(self.path@.len(), |i: int| self.path@[i]@)
    }

    /// Build a store for `session_id` under `data_dir/todos/`.
    pub fn for_session(data_dir: &Vec<String>, session_id: u128) -> (r: Self)
        ensures
            r.spec_path() == crate::context::memory::components(data_dir@).push("todos"@).push(
                uuid_text(session_id) + ".json"@,
            ),
    {
        let mut path: Vec<String> = Vec::new();
        let mut i: usize = 0;
        while i < data_dir.len()
            invariant
                i <= data_dir@.len(),
                path@.len() == i,
                forall|j: int| 0 <= j < i ==> #[trigger] path@[j]@ == data_dir@[j]@,
            decreases data_dir@.len() - i,
        {
            path.push(data_dir[i].clone());
            i += 1;
        }
        path.push(string_of(&chars_of(TODOS_DIR)));
        let mut file = chars_of(uuid_string(session_id).as_str());
        extend_str(&mut file, ".json");
        path.push(string_of(&file));
        let r = Self { path };
        assert(r.spec_path() =~= crate::context::memory::components(data_dir@).push(
            "todos"@,
        ).push(uuid_text(session_id) + ".json"@));
        r
    }

    /// Path components of the todo file.
    pub fn path(&self) -> (r: &Vec<String>)
        ensures
            Seq::new(r@.len(), |i: int| r@[i]@) == self.spec_path(),
    {
        &self.path
    }
}

/// The list as saved: items without an id get their 1-based position.
pub open spec fn spec_assign_ids(ts: Seq<TodoV>) -> Seq<TodoV> {
    Seq::new(
        ts.len(),
        |i: int|
            match ts[i].id {
                Some(_) => ts[i],
                None => TodoV { id: Some(decimal((i + 1) as nat)), ..ts[i] },
            },
    )
}

/// Give every item without an id the stable id of its position (`"1"`, `"2"`, ...).
pub fn assign_ids(todos: &[TodoItem]) -> (r: Vec<TodoItem>)
    ensures
        todos_view(r@) == spec_assign_ids(todos_view(todos@)),
{
    let mut r: Vec<TodoItem> = Vec::new();
    let mut i: usize = 0;
    while i < todos.len()
        invariant
            i <= todos@.len(),
            r@.len() == i,
            forall|j: int|
                0 <= j < i ==> #[trigger] r@[j]@ == spec_assign_ids(todos_view(todos@))[j],
        decreases todos@.len() - i,
    {
        let item = &todos[i];
        let id = match &item.id {
            Some(s) => Some(s.clone()),
            None => {
                let mut d: Vec<char> = Vec::new();
                push_decimal(&mut d, (i + 1) as u64);
                assert(d@ =~= decimal((i + 1) as nat));
                Some(string_of(&d))
            },
        };
        r.push(TodoItem { id, content: item.content.clone(), status: item.status });
        i += 1;
    }
    assert(todos_view(r@) =~= spec_assign_ids(todos_view(todos@)));
    r
}

/// Checkbox glyph and state label of a status.
pub open spec fn status_glyph(s: TodoStatus) -> (Seq<char>, Seq<char>) {
    match s {
        TodoStatus::Completed => ("[x]"@, "completed"@),
        TodoStatus::InProgress => ("[~]"@, "in_progress"@),
        TodoStatus::Pending => ("[ ]"@, "pending"@),
    }
}

/// One line per item: `"<glyph> (<id or ->) <state>: <content>\n"`.
pub open spec fn todo_lines(ts: Seq<TodoV>) -> Seq<char>
    decreases ts.len(),
{
    if ts.len() == 0 {
        Seq::empty()
    } else {
        let t = ts.last();
        let (glyph, state) = status_glyph(t.status);
        let id = match t.id {
            Some(s) => s,
            None => "-"@,
        };
        todo_lines(ts.drop_last()) + glyph + " ("@ + id + ") "@ + state + ": "@ + t.content
            + "\n"@
    }
}

/// The `<todos>` system-prompt section: `None` for an empty list.
pub open spec fn spec_todo_section(ts: Seq<TodoV>) -> Option<Seq<char>> {
    if ts.len() == 0 {
        None
    } else {
        Some("<todos>\n"@ + trim_end(todo_lines(ts)) + "</todos>"@)
    }
}

impl TodoStore {
    /// Format the saved list (`todos`, as read from `self.path()`) as a
    /// system-prompt `<todos>` section; `None` when it is empty.
    pub fn format(&self, todos: &[TodoItem]) -> (r: Option<String>)
        ensures
            match r {
                Some(s) => spec_todo_section(todos_view(todos@)) == Some(s@),
                None => spec_todo_section(todos_view(todos@)) is None,
            },
    {
        if todos.len() == 0 {
            return None;
        }
        let ghost v = todos_view(todos@);
        let mut body: Vec<char> = Vec::new();
        let mut i: usize = 0;
        while i < todos.len()
            invariant
                v == todos_view(todos@),
                i <= todos@.len(),
                body@ == todo_lines(v.take(i as int)),
            decreases todos@.len() - i,
        {
            let item = &todos[i];
            proof {
                assert(v.take(i + 1).drop_last() =~= v.take(i as int));
                assert(v.take(i + 1).last() == item@);
            }
            let (glyph, state) = match item.status {
                TodoStatus::Completed => ("[x]", "completed"),
                TodoStatus::InProgress => ("[~]", "in_progress"),
                TodoStatus::Pending => ("[ ]", "pending"),
            };
            extend_str(&mut body, glyph);
            extend_str(&mut body, " (");
            match &item.id {
                Some(s) => extend_str(&mut body, s.as_str()),
                None => extend_str(&mut body, "-"),
            }
            extend_str(&mut body, ") ");
            extend_str(&mut body, state);
            extend_str(&mut body, ": ");
            extend_str(&mut body, item.content.as_str());
            extend_str(&mut body, "\n");
            proof {
                assert(body@ =~= todo_lines(v.take(i + 1)));
            }
            i += 1;
        }
        proof {
            assert(v.take(todos@.len() as int) =~= v);
        }
        let mut out = chars_of("<todos>\n");
        let trimmed = crate::text::trim_end_chars(&body);
        extend_chars(&mut out, &trimmed);
        extend_str(&mut out, "</todos>");
        Some(string_of(&out))
    }
}

} // verus!

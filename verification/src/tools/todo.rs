//! `todo_write` / `todo_read`: parsing the model's task list and summarising
//! what was saved.

use vstd::prelude::*;

use crate::context::todos::{todos_view, TodoItem, TodoStatus, TodoStore, TodoV, MAX_TODOS};
use crate::json::{items_view, lemma_items_view_index_all, Json, JsonV};
use crate::text::{
    chars_eq, chars_of, contains, decimal, extend_str, join_comma, occurs_at, push_decimal,
    push_join_comma, starts_with, string_of, trim, trim_chars,
};
use crate::tools::error::ToolError;

verus! {

/// `"pending"`, `"in_progress"`, `"completed"`, or nothing.
pub open spec fn spec_parse_status(s: Seq<char>) -> Option<TodoStatus> {
    if s == "pending"@ {
        Some(TodoStatus::Pending)
    } else if s == "in_progress"@ {
        Some(TodoStatus::InProgress)
    } else if s == "completed"@ {
        Some(TodoStatus::Completed)
    } else {
        None
    }
}

/// Parse a task status word.
pub fn parse_status(s: &str) -> (r: Option<TodoStatus>)
    ensures
        r == spec_parse_status(s@),
{
    let c = chars_of(s);
    if chars_eq(&c, &chars_of("pending")) {
        Some(TodoStatus::Pending)
    } else if chars_eq(&c, &chars_of("in_progress")) {
        Some(TodoStatus::InProgress)
    } else if chars_eq(&c, &chars_of("completed")) {
        Some(TodoStatus::Completed)
    } else {
        None
    }
}

/// Result of `format!("{:?}", s)` for a string: the quoted, escaped rendering.
pub uninterp spec fn debug_quoted(s: Seq<char>) -> Seq<char>;

/// Calls `<str as Debug>::fmt` through `format!`.
#[verifier::external_body]
fn debug_string(s: &str) -> (r: String)
    ensures
        r@ == debug_quoted(s@),
{
    format!("{s:?}")
}

/// An input error: the message, and a hint for the model.
pub struct InputError {
    pub message: Seq<char>,
    pub hint: Seq<char>,
}

/// How one entry of the `todos` array is read: an object with non-blank string
/// `content` (stored trimmed), a string `status` naming a known status, and an
/// optional string `id`.
#[verifier::opaque]
pub open spec fn spec_parse_entry(e: JsonV) -> Result<TodoV, InputError> {
    if !(e is Object) {
        Err(
            InputError {
                message: "each todo must be an object"@,
                hint: "use {\"content\": \"...\", \"status\": \"pending\"}"@,
            },
        )
    } else {
        let content = match e.get("content"@) {
            Some(JsonV::Str(c)) => if trim(c).len() == 0 {
                None
            } else {
                Some(trim(c))
            },
            _ => None,
        };
        match content {
            None => Err(
                InputError {
                    message: "each todo needs non-empty `content`"@,
                    hint: "describe the task in one short sentence"@,
                },
            ),
            Some(content) => match e.get("status"@) {
                Some(JsonV::Str(st)) => match spec_parse_status(st) {
                    Some(status) => Ok(
                        TodoV {
                            id: match e.get("id"@) {
                                Some(JsonV::Str(id)) => Some(id),
                                _ => None,
                            },
                            content,
                            status,
                        },
                    ),
                    None => Err(
                        InputError {
                            message: "unknown status "@ + debug_quoted(st),
                            hint: "use one of: pending, in_progress, completed"@,
                        },
                    ),
                },
                _ => Err(
                    InputError {
                        message: "each todo needs a `status`"@,
                        hint: "use one of: pending, in_progress, completed"@,
                    },
                ),
            },
        }
    }
}

/// Entries read in order; the first bad entry decides the error.
pub open spec fn spec_parse_entries(es: Seq<JsonV>) -> Result<Seq<TodoV>, InputError>
    decreases es.len(),
{
    if es.len() == 0 {
        Ok(Seq::empty())
    } else {
        match spec_parse_entries(es.drop_last()) {
            Err(e) => Err(e),
            Ok(items) => match spec_parse_entry(es.last()) {
                Err(e) => Err(e),
                Ok(item) => Ok(items.push(item)),
            },
        }
    }
}

/// The task list carried by a `todo_write` input: a `todos` array of at most
/// [`MAX_TODOS`] well-formed entries.
pub open spec fn spec_parse_list(input: JsonV) -> Result<Seq<TodoV>, InputError> {
    match input.get("todos"@) {
        Some(JsonV::Array(es)) => if es.len() > MAX_TODOS {
            Err(
                InputError {
                    message: "too many todos ("@ + decimal(es.len()) + " > 32)"@,
                    hint: "keep the task list at or under 32 items; fold smaller tasks together"@,
                },
            )
        } else {
            spec_parse_entries(es)
        },
        _ => Err(
            InputError {
                message: "missing `todos` array"@,
                hint: "pass the full task list, e.g. {\"todos\": [{\"content\": \"...\", \"status\": \"pending\"}]}"@,
            },
        ),
    }
}

/// `e` is the invalid-input tool error for `err`.
pub open spec fn is_input_error(e: ToolError, err: InputError) -> bool {
    e matches ToolError::InvalidInput { message, hint: Some(h) } && message@ == err.message
        && h@ == err.hint
}

fn invalid_input(message: Vec<char>, hint: &str) -> (r: ToolError)
    ensures
        r matches ToolError::InvalidInput { message: m, hint: Some(h) } && m@ == message@ && h@
            == hint@,
{
    ToolError::InvalidInput { message: string_of(&message), hint: Some(string_of(&chars_of(hint))) }
}

fn parse_entry(entry: &Json) -> (r: Result<TodoItem, ToolError>)
    ensures
        match spec_parse_entry(entry@) {
            Ok(t) => r matches Ok(item) && item@ == t,
            Err(err) => r matches Err(e) && is_input_error(e, err),
        },
{
    reveal(spec_parse_entry);
    match entry {
        Json::Object(_) => {},
        _ => {
            return Err(
                invalid_input(
                    chars_of("each todo must be an object"),
                    "use {\"content\": \"...\", \"status\": \"pending\"}",
                ),
            );
        },
    }
    let content = match entry.get("content") {
        Some(v) => match v.as_str() {
            Some(c) => {
                let t = trim_chars(&chars_of(c.as_str()));
                if t.len() == 0 {
                    None
                } else {
                    Some(t)
                }
            },
            None => None,
        },
        None => None,
    };
    let content = match content {
        Some(c) => c,
        None => {
            return Err(
                invalid_input(
                    chars_of("each todo needs non-empty `content`"),
                    "describe the task in one short sentence",
                ),
            );
        },
    };
    let status_str = match entry.get("status") {
        Some(v) => match v.as_str() {
            Some(s) => s,
            None => {
                return Err(
                    invalid_input(
                        chars_of("each todo needs a `status`"),
                        "use one of: pending, in_progress, completed",
                    ),
                );
            },
        },
        None => {
            return Err(
                invalid_input(
                    chars_of("each todo needs a `status`"),
                    "use one of: pending, in_progress, completed",
                ),
            );
        },
    };
    let status = match parse_status(status_str.as_str()) {
        Some(s) => s,
        None => {
            let mut m = chars_of("unknown status ");
            extend_str(&mut m, debug_string(status_str.as_str()).as_str());
            return Err(invalid_input(m, "use one of: pending, in_progress, completed"));
        },
    };
    let id = match entry.get("id") {
        Some(v) => match v.as_str() {
            Some(s) => Some(s.clone()),
            None => None,
        },
        None => None,
    };
    Ok(TodoItem { id, content: string_of(&content), status })
}

/// Read the full task list from a `todo_write` input.
pub fn parse_list(input: &Json) -> (r: Result<Vec<TodoItem>, ToolError>)
    ensures
        match spec_parse_list(input@) {
            Ok(ts) => r matches Ok(items) && todos_view(items@) == ts,
            Err(err) => r matches Err(e) && is_input_error(e, err),
        },
{
    let raw = match input.get("todos") {
        Some(Json::Array(items)) => items,
        _ => {
            return Err(
                invalid_input(
                    chars_of("missing `todos` array"),
                    "pass the full task list, e.g. {\"todos\": [{\"content\": \"...\", \"status\": \"pending\"}]}",
                ),
            );
        },
    };
    proof {
        lemma_items_view_index_all(raw@);
    }
    if raw.len() > MAX_TODOS {
        let mut m = chars_of("too many todos (");
        push_decimal(&mut m, raw.len() as u64);
        extend_str(&mut m, " > 32)");
        return Err(
            invalid_input(m, "keep the task list at or under 32 items; fold smaller tasks together"),
        );
    }
    parse_entries(raw)
}

fn parse_entries(raw: &Vec<Json>) -> (r: Result<Vec<TodoItem>, ToolError>)
    ensures
        match spec_parse_entries(items_view(raw@)) {
            Ok(ts) => r matches Ok(items) && todos_view(items@) == ts,
            Err(err) => r matches Err(e) && is_input_error(e, err),
        },
{
    proof {
        lemma_items_view_index_all(raw@);
    }
    let ghost es = items_view(raw@);
    let mut out: Vec<TodoItem> = Vec::new();
    let mut i: usize = 0;
    proof {
        assert(es.take(0) =~= Seq::<JsonV>::empty());
        assert(todos_view(out@) =~= Seq::<TodoV>::empty());
    }
    while i < raw.len()
        invariant
            es == items_view(raw@),
            es.len() == raw@.len(),
            forall|j: int| 0 <= j < raw@.len() ==> #[trigger] es[j] == raw@[j]@,
            i <= raw@.len(),
            spec_parse_entries(es.take(i as int)) == Ok::<Seq<TodoV>, InputError>(todos_view(out@)),
        decreases raw@.len() - i,
    {
        proof {
            assert(es.take(i + 1).drop_last() =~= es.take(i as int));
            assert(es.take(i + 1).last() == raw@[i as int]@);
        }
        match parse_entry(&raw[i]) {
            Ok(item) => {
                let ghost before = out@;
                out.push(item);
                assert(todos_view(out@) =~= todos_view(before).push(out@.last()@));
            },
            Err(e) => {
                proof {
                    lemma_parse_entries_error_persists(es, (i + 1) as int);
                }
                return Err(e);
            },
        }
        i += 1;
    }
    assert(es.take(raw@.len() as int) =~= es);
    Ok(out)
}

/// Once a prefix fails to parse, the whole sequence fails with the same error.
proof fn lemma_parse_entries_error_persists(es: Seq<JsonV>, k: int)
    requires
        0 <= k <= es.len(),
        spec_parse_entries(es.take(k)) is Err,
    ensures
        spec_parse_entries(es) == spec_parse_entries(es.take(k)),
    decreases es.len() - k,
{
    if k < es.len() {
        assert(es.take(k + 1).drop_last() =~= es.take(k));
        lemma_parse_entries_error_persists(es, k + 1);
    } else {
        assert(es.take(k) =~= es);
    }
}

/// Number of items with status `s`.
pub open spec fn count_status(ts: Seq<TodoV>, s: TodoStatus) -> nat
    decreases ts.len(),
{
    if ts.len() == 0 {
        0
    } else {
        count_status(ts.drop_last(), s) + if ts.last().status == s {
            1nat
        } else {
            0nat
        }
    }
}

/// `"<count> <label>"` for each non-zero count (pending, in progress,
/// completed, in that order), joined by `", "`.
pub open spec fn summary_parts(p: nat, ip: nat, c: nat) -> Seq<char> {
    let a = if p > 0 {
        seq![decimal(p) + " pending"@]
    } else {
        Seq::empty()
    };
    let b = if ip > 0 {
        seq![decimal(ip) + " in progress"@]
    } else {
        Seq::empty()
    };
    let d = if c > 0 {
        seq![decimal(c) + " completed"@]
    } else {
        Seq::empty()
    };
    join_comma(a + b + d)
}

/// The `todo_write` reply: `"<n> todos · <parts>"`.
pub open spec fn spec_summarize(ts: Seq<TodoV>) -> Seq<char> {
    decimal(ts.len()) + " todos · "@ + summary_parts(
        count_status(ts, TodoStatus::Pending),
        count_status(ts, TodoStatus::InProgress),
        count_status(ts, TodoStatus::Completed),
    )
}

/// Summarise a saved list for the model.
pub fn summarize(todos: &[TodoItem]) -> (r: String)
    ensures
        r@ == spec_summarize(todos_view(todos@)),
{
    let ghost v = todos_view(todos@);
    let mut p: u64 = 0;
    let mut ip: u64 = 0;
    let mut c: u64 = 0;
    let mut i: usize = 0;
    while i < todos.len()
        invariant
            v == todos_view(todos@),
            i <= todos@.len(),
            p == count_status(v.take(i as int), TodoStatus::Pending),
            ip == count_status(v.take(i as int), TodoStatus::InProgress),
            c == count_status(v.take(i as int), TodoStatus::Completed),
            p + ip + c == i,
        decreases todos@.len() - i,
    {
        proof {
            assert(v.take(i + 1).drop_last() =~= v.take(i as int));
            assert(v.take(i + 1).last() == todos@[i as int]@);
        }
        match todos[i].status {
            TodoStatus::Pending => p += 1,
            TodoStatus::InProgress => ip += 1,
            TodoStatus::Completed => c += 1,
        }
        i += 1;
    }
    proof {
        assert(v.take(todos@.len() as int) =~= v);
    }
    let mut parts: Vec<Vec<char>> = Vec::new();
    if p > 0 {
        let mut s: Vec<char> = Vec::new();
        push_decimal(&mut s, p);
        extend_str(&mut s, " pending");
        parts.push(s);
    }
    if ip > 0 {
        let mut s: Vec<char> = Vec::new();
        push_decimal(&mut s, ip);
        extend_str(&mut s, " in progress");
        parts.push(s);
    }
    if c > 0 {
        let mut s: Vec<char> = Vec::new();
        push_decimal(&mut s, c);
        extend_str(&mut s, " completed");
        parts.push(s);
    }
    let ghost pv = Seq::new(parts@.len(), |k: int| parts@[k]@);
    proof {
        let a = if p > 0 { seq![decimal(p as nat) + " pending"@] } else { Seq::<Seq<char>>::empty() };
        let b = if ip > 0 { seq![decimal(ip as nat) + " in progress"@] } else { Seq::<Seq<char>>::empty() };
        let d = if c > 0 { seq![decimal(c as nat) + " completed"@] } else { Seq::<Seq<char>>::empty() };
        assert(pv =~= a + b + d);
    }
    let mut out: Vec<char> = Vec::new();
    push_decimal(&mut out, todos.len() as u64);
    extend_str(&mut out, " todos · ");
    push_join_comma(&mut out, &parts);
    string_of(&out)
}

/// `todo_read` tool: returns the session's current task list.
#[derive(Debug)]
pub struct TodoReadTool {
    store: TodoStore,
}

impl TodoReadTool {
    /// Build the tool against the session todo store.
    pub fn new(store: TodoStore) -> (r: Self)
        ensures
            r.store() == store,
    {
        Self { store }
    }

    /// The store the tool reads.
    pub closed spec fn store(&self) -> TodoStore {
        self.store
    }
}

proof fn lemma_contains_left(a: Seq<char>, b: Seq<char>, p: Seq<char>)
    requires
        contains(a, p),
    ensures
        contains(a + b, p),
{
    let i = choose|i: int| occurs_at(a, p, i);
    assert((a + b).subrange(i, i + p.len()) =~= a.subrange(i, i + p.len()));
    assert(occurs_at(a + b, p, i));
}

proof fn lemma_contains_right(a: Seq<char>, b: Seq<char>)
    ensures
        contains(a + b, b),
{
    assert((a + b).subrange(a.len() as int, (a.len() + b.len()) as int) =~= b);
    assert(occurs_at(a + b, b, a.len() as int));
}

proof fn lemma_join_comma_contains(parts: Seq<Seq<char>>, k: int)
    requires
        0 <= k < parts.len(),
    ensures
        contains(join_comma(parts), parts[k]),
    decreases parts.len(),
{
    if parts.len() == 1 {
        assert(join_comma(parts) == parts[0]);
        lemma_contains_right(Seq::empty(), parts[0]);
        assert(Seq::<char>::empty() + parts[0] =~= parts[0]);
    } else if k == parts.len() - 1 {
        lemma_contains_right(join_comma(parts.drop_last()) + ", "@, parts.last());
    } else {
        lemma_join_comma_contains(parts.drop_last(), k);
        lemma_contains_left(join_comma(parts.drop_last()), ", "@, parts[k]);
        lemma_contains_left(join_comma(parts.drop_last()) + ", "@, parts.last(), parts[k]);
    }
}

proof fn lemma_counts_add_up(ts: Seq<TodoV>)
    ensures
        count_status(ts, TodoStatus::Pending) + count_status(ts, TodoStatus::InProgress)
            + count_status(ts, TodoStatus::Completed) == ts.len(),
    decreases ts.len(),
{
    if ts.len() > 0 {
        lemma_counts_add_up(ts.drop_last());
    }
}

/// The summary starts with the number of todos, every status is counted
/// once (the three counts add up to that number), and each status that has
/// items is reported with its count: `"<n> pending"`, `"<n> in progress"`,
/// `"<n> completed"`.
pub proof fn lemma_summary_reports_every_status(ts: Seq<TodoV>)
    ensures
        count_status(ts, TodoStatus::Pending) + count_status(ts, TodoStatus::InProgress)
            + count_status(ts, TodoStatus::Completed) == ts.len(),
        starts_with(spec_summarize(ts), decimal(ts.len()) + " todos · "@),
        count_status(ts, TodoStatus::Pending) > 0 ==> contains(
            spec_summarize(ts),
            decimal(count_status(ts, TodoStatus::Pending)) + " pending"@,
        ),
        count_status(ts, TodoStatus::InProgress) > 0 ==> contains(
            spec_summarize(ts),
            decimal(count_status(ts, TodoStatus::InProgress)) + " in progress"@,
        ),
        count_status(ts, TodoStatus::Completed) > 0 ==> contains(
            spec_summarize(ts),
            decimal(count_status(ts, TodoStatus::Completed)) + " completed"@,
        ),
{
    lemma_counts_add_up(ts);
    let p = count_status(ts, TodoStatus::Pending);
    let ip = count_status(ts, TodoStatus::InProgress);
    let c = count_status(ts, TodoStatus::Completed);
    let head = decimal(ts.len()) + " todos · "@;
    let a = if p > 0 {
        seq![decimal(p) + " pending"@]
    } else {
        Seq::empty()
    };
    let b = if ip > 0 {
        seq![decimal(ip) + " in progress"@]
    } else {
        Seq::empty()
    };
    let d = if c > 0 {
        seq![decimal(c) + " completed"@]
    } else {
        Seq::empty()
    };
    let parts = a + b + d;
    assert(summary_parts(p, ip, c) == join_comma(parts));
    assert(spec_summarize(ts) == head + join_comma(parts));
    assert(spec_summarize(ts).take(head.len() as int) =~= head);
    if p > 0 {
        assert(parts[0] == decimal(p) + " pending"@);
        lemma_join_comma_contains(parts, 0);
    }
    if ip > 0 {
        assert(parts[a.len() as int] == decimal(ip) + " in progress"@);
        lemma_join_comma_contains(parts, a.len() as int);
    }
    if c > 0 {
        assert(parts[(a.len() + b.len()) as int] == decimal(c) + " completed"@);
        lemma_join_comma_contains(parts, (a.len() + b.len()) as int);
    }
    if p > 0 {
        lemma_contains_shift(head, join_comma(parts), decimal(p) + " pending"@);
    }
    if ip > 0 {
        lemma_contains_shift(head, join_comma(parts), decimal(ip) + " in progress"@);
    }
    if c > 0 {
        lemma_contains_shift(head, join_comma(parts), decimal(c) + " completed"@);
    }
}

proof fn lemma_contains_shift(a: Seq<char>, b: Seq<char>, p: Seq<char>)
    requires
        contains(b, p),
    ensures
        contains(a + b, p),
{
    let i = choose|i: int| occurs_at(b, p, i);
    assert((a + b).subrange(a.len() + i, a.len() + i + p.len()) =~= b.subrange(i, i + p.len()));
    assert(occurs_at(a + b, p, a.len() + i));
}

} // verus!

//! Chat transcript types: messages, their parts, and their plain views.

use vstd::prelude::*;

use crate::json::{clone_json, Json, JsonV};

verus! {

/// Who authored a message.
#[derive(Debug, Clone, Copy, PartialEq, Eq, Structural)]
pub enum Role {
    User,
    Assistant,
    Tool,
}

/// A tool invocation requested by the model.
#[derive(Debug)]
pub struct ToolCall {
    pub id: String,
    pub name: String,
    pub input: Json,
}

/// The result of a tool invocation.
#[derive(Debug)]
pub struct ToolResult {
    pub call_id: String,
    pub name: String,
    pub output: Json,
    pub is_error: bool,
}

/// One part of a message.
#[derive(Debug)]
pub enum MessagePart {
    Text { text: String },
    ToolCall(ToolCall),
    ToolResult(ToolResult),
    FileMention { path: String },
}

/// A transcript message. `id` is the message UUID as a 128-bit integer and
/// `created_at` its creation time in milliseconds since the Unix epoch.
#[derive(Debug)]
pub struct Message {
    pub id: u128,
    pub role: Role,
    pub parts: Vec<MessagePart>,
    pub model: Option<String>,
    pub created_at: i64,
}

/// The value of a message part.
pub enum PartV {
    Text(Seq<char>),
    ToolCall { id: Seq<char>, name: Seq<char>, input: JsonV },
    ToolResult { call_id: Seq<char>, name: Seq<char>, output: JsonV, is_error: bool },
    FileMention(Seq<char>),
}

/// The value of a message.
pub struct MessageV {
    pub id: u128,
    pub role: Role,
    pub parts: Seq<PartV>,
    pub model: Option<Seq<char>>,
    pub created_at: i64,
}

impl View for MessagePart {
    type V = PartV;

    open spec fn view(&self) -> PartV {
        match self {
            MessagePart::Text { text } => PartV::Text(text@),
            MessagePart::ToolCall(c) => PartV::ToolCall { id: c.id@, name: c.name@, input: c.input@ },
            MessagePart::ToolResult(r) => PartV::ToolResult {
                call_id: r.call_id@,
                name: r.name@,
                output: r.output@,
                is_error: r.is_error,
            },
            MessagePart::FileMention { path } => PartV::FileMention(path@),
        }
    }
}

/// The values of a sequence of parts.
pub open spec fn parts_view(parts: Seq<MessagePart>) -> Seq<PartV> {
    Seq::new(parts.len(), |i: int| parts[i]@)
}

/// The value of an optional string.
pub open spec fn opt_view(s: Option<String>) -> Option<Seq<char>> {
    match s {
        Some(s) => Some(s@),
        None => None,
    }
}

impl View for Message {
    type V = MessageV;

    open spec fn view(&self) -> MessageV {
        MessageV {
            id: self.id,
            role: self.role,
            parts: parts_view(self.parts@),
            model: opt_view(self.model),
            created_at: self.created_at,
        }
    }
}

/// The values of a sequence of messages.
pub open spec fn messages_view(ms: Seq<Message>) -> Seq<MessageV> {
    Seq::new(ms.len(), |i: int| ms[i]@)
}

/// Exact copy of a message part.
pub fn clone_part(p: &MessagePart) -> (r: MessagePart)
    ensures
        r@ == p@,
{
    match p {
        MessagePart::Text { text } => MessagePart::Text { text: text.clone() },
        MessagePart::ToolCall(c) => MessagePart::ToolCall(
            ToolCall { id: c.id.clone(), name: c.name.clone(), input: clone_json(&c.input) },
        ),
        MessagePart::ToolResult(r) => MessagePart::ToolResult(
            ToolResult {
                call_id: r.call_id.clone(),
                name: r.name.clone(),
                output: clone_json(&r.output),
                is_error: r.is_error,
            },
        ),
        MessagePart::FileMention { path } => MessagePart::FileMention { path: path.clone() },
    }
}

/// Exact copy of an optional string.
pub fn clone_opt_string(s: &Option<String>) -> (r: Option<String>)
    ensures
        opt_view(r) == opt_view(*s),
{
    match s {
        Some(v) => Some(v.clone()),
        None => None,
    }
}

/// Exact copy of a message.
pub fn clone_message(m: &Message) -> (r: Message)
    ensures
        r@ == m@,
{
    let mut parts: Vec<MessagePart> = Vec::new();
    let mut i: usize = 0;
    while i < m.parts.len()
        invariant
            i <= m.parts@.len(),
            parts@.len() == i,
            forall|j: int| 0 <= j < i ==> #[trigger] parts@[j]@ == m.parts@[j]@,
        decreases m.parts@.len() - i,
    {
        parts.push(clone_part(&m.parts[i]));
        i += 1;
    }
    let r = Message {
        id: m.id,
        role: m.role,
        parts,
        model: clone_opt_string(&m.model),
        created_at: m.created_at,
    };
    assert(r@.parts =~= m@.parts);
    assert(r@.model == m@.model);
    r
}

/// Concatenation of the text parts of a message.
pub open spec fn text_of_parts(parts: Seq<PartV>) -> Seq<char>
    decreases parts.len(),
{
    if parts.len() == 0 {
        Seq::empty()
    } else {
        text_of_parts(parts.drop_last()) + match parts.last() {
            PartV::Text(t) => t,
            _ => Seq::empty(),
        }
    }
}

/// The concatenated text parts of `m`.
pub fn text_of(m: &Message) -> (r: Vec<char>)
    ensures
        r@ == text_of_parts(m@.parts),
{
    let mut out: Vec<char> = Vec::new();
    let mut i: usize = 0;
    while i < m.parts.len()
        invariant
            i <= m.parts@.len(),
            out@ == text_of_parts(parts_view(m.parts@).take(i as int)),
        decreases m.parts@.len() - i,
    {
        proof {
            assert(parts_view(m.parts@).take(i + 1).drop_last() =~= parts_view(m.parts@).take(
                i as int,
            ));
        }
        match &m.parts[i] {
            MessagePart::Text { text } => {
                crate::text::extend_str(&mut out, text.as_str());
            },
            _ => {
                assert(out@ + Seq::<char>::empty() =~= out@);
            },
        }
        i += 1;
    }
    assert(parts_view(m.parts@).take(m.parts@.len() as int) =~= parts_view(m.parts@));
    out
}

} // verus!

//! MCP client configuration and the mapping of remote MCP tools onto local
//! tool names and annotations.

use vstd::prelude::*;

use crate::json::{Json, JsonV};
use crate::text::{
    chars_eq, chars_of, decimal, extend_str, is_ascii_alnum, push_decimal, string_of,
    string_views,
};
use crate::tools::error::ToolError;

verus! {

/// Provider-side cap on tool names (OpenAI and Anthropic both stop at 64).
pub const MAX_TOOL_NAME: usize = 64;

/// One external MCP server, keyed by name in the `[mcp]` config table.
#[derive(Debug)]
pub struct McpServerConfig {
    /// argv of a stdio MCP server. The first element is the executable.
    pub command: Vec<String>,
    /// Extra environment variables for the child process, as `(name, value)`.
    pub environment: Vec<(String, String)>,
    /// Set `false` to keep the entry in config but skip connecting.
    pub enabled: bool,
}

/// Default for `McpServerConfig::enabled`: servers are enabled unless turned off.
pub fn enabled_by_default() -> (r: bool)
    ensures
        r,
{
    true
}

/// A tool-name character, kept when ASCII alphanumeric or `-`, else `_`.
pub open spec fn sanitize_char(c: char) -> char {
    if is_ascii_alnum(c) || c == '-' {
        c
    } else {
        '_'
    }
}

/// `mcp_<server>_<remote>` with every character sanitised, cut to
/// [`MAX_TOOL_NAME`] characters.
pub open spec fn spec_qualified_name(server: Seq<char>, remote: Seq<char>) -> Seq<char> {
    let raw = seq!['m', 'c', 'p', '_'] + server + seq!['_'] + remote;
    let clean = Seq::new(raw.len(), |i: int| sanitize_char(raw[i]));
    if clean.len() <= MAX_TOOL_NAME {
        clean
    } else {
        clean.take(MAX_TOOL_NAME as int)
    }
}

/// Prefix a remote tool name with `mcp_<server>_` so it can never collide with
/// a built-in tool, and sanitise it to `[A-Za-z0-9_-]{1,64}`.
pub fn qualified_name(server: &str, remote: &str) -> (r: String)
    ensures
        r@ == spec_qualified_name(server@, remote@),
{
    let mut raw = vec!['m', 'c', 'p', '_'];
    extend_str(&mut raw, server);
    raw.push('_');
    extend_str(&mut raw, remote);
    let ghost raw_view = raw@;
    proof {
        assert(raw_view =~= seq!['m', 'c', 'p', '_'] + server@ + seq!['_'] + remote@);
    }
    let mut out: Vec<char> = Vec::new();
    let mut i: usize = 0;
    while i < raw.len() && i < MAX_TOOL_NAME
        invariant
            raw@ == raw_view,
            i <= raw@.len(),
            i <= MAX_TOOL_NAME,
            out@ == Seq::new(i as nat, |j: int| sanitize_char(raw_view[j])),
        decreases raw@.len() - i,
    {
        let c = raw[i];
        let ok = ('0' <= c && c <= '9') || ('a' <= c && c <= 'z') || ('A' <= c && c <= 'Z') || c
            == '-';
        out.push(if ok {
            c
        } else {
            '_'
        });
        assert(out@ =~= Seq::new((i + 1) as nat, |j: int| sanitize_char(raw_view[j])));
        i += 1;
    }
    proof {
        let clean = Seq::new(raw_view.len(), |j: int| sanitize_char(raw_view[j]));
        if clean.len() <= MAX_TOOL_NAME {
            assert(out@ =~= clean);
        } else {
            assert(out@ =~= clean.take(MAX_TOOL_NAME as int));
        }
    }
    string_of(&out)
}

/// Behaviour hints an MCP server may attach to a tool.
#[derive(Debug, Clone, Copy)]
pub struct RemoteToolHints {
    pub read_only_hint: Option<bool>,
    pub destructive_hint: Option<bool>,
    pub idempotent_hint: Option<bool>,
    pub open_world_hint: Option<bool>,
}

/// How a tool behaves, as the approval gate and mode policy read it.
#[derive(Debug, Clone, Copy, PartialEq, Eq, Structural)]
pub struct ToolAnnotations {
    pub read_only: bool,
    pub destructive: bool,
    pub open_world: bool,
    pub idempotent: bool,
    pub approval_exempt: bool,
}

/// `hint`, or `default` when the server gave none.
pub open spec fn hint_or(hint: Option<bool>, default: bool) -> bool {
    match hint {
        Some(b) => b,
        None => default,
    }
}

/// Annotations for a remote tool: missing hints take the cautious reading
/// (mutating, destructive unless read-only, open-world, non-idempotent), and
/// remote tools are never exempt from approval.
pub open spec fn spec_annotations(hints: Option<RemoteToolHints>) -> ToolAnnotations {
    let read_only = match hints {
        Some(h) => hint_or(h.read_only_hint, false),
        None => false,
    };
    ToolAnnotations {
        read_only,
        destructive: match hints {
            Some(h) => hint_or(h.destructive_hint, !read_only),
            None => !read_only,
        },
        open_world: match hints {
            Some(h) => hint_or(h.open_world_hint, true),
            None => true,
        },
        idempotent: match hints {
            Some(h) => hint_or(h.idempotent_hint, false),
            None => false,
        },
        approval_exempt: false,
    }
}

fn unwrap_or(hint: Option<bool>, default: bool) -> (r: bool)
    ensures
        r == hint_or(hint, default),
{
    match hint {
        Some(b) => b,
        None => default,
    }
}

/// Map an MCP tool's hints onto local annotations.
pub fn annotations_for(hints: Option<RemoteToolHints>) -> (r: ToolAnnotations)
    ensures
        r == spec_annotations(hints),
{
    match hints {
        Some(h) => {
            let read_only = unwrap_or(h.read_only_hint, false);
            ToolAnnotations {
                read_only,
                destructive: unwrap_or(h.destructive_hint, !read_only),
                open_world: unwrap_or(h.open_world_hint, true),
                idempotent: unwrap_or(h.idempotent_hint, false),
                approval_exempt: false,
            }
        },
        None => ToolAnnotations {
            read_only: false,
            destructive: true,
            open_world: true,
            idempotent: false,
            approval_exempt: false,
        },
    }
}

/// Description shown for a remote tool: `"[MCP: <server>] "` followed by the
/// server's description, or the tool name when it has none.
pub fn mcp_description(server: &str, description: Option<&str>, name: &str) -> (r: String)
    ensures
        r@ == "[MCP: "@ + server@ + "] "@ + match description {
            Some(d) => d@,
            None => name@,
        },
{
    let mut out = chars_of("[MCP: ");
    extend_str(&mut out, server);
    extend_str(&mut out, "] ");
    match description {
        Some(d) => extend_str(&mut out, d),
        None => extend_str(&mut out, name),
    }
    string_of(&out)
}


/// A character allowed in a provider tool name: ASCII alphanumeric, `-` or `_`.
pub open spec fn is_tool_name_char(c: char) -> bool {
    is_ascii_alnum(c) || c == '-' || c == '_'
}

/// Every qualified name is a valid provider tool name: it starts with
/// `mcp_`, has between 4 and [`MAX_TOOL_NAME`] characters, and each is ASCII
/// alphanumeric, `-` or `_`.
pub proof fn lemma_qualified_name_is_valid(server: Seq<char>, remote: Seq<char>)
    ensures
        4 <= spec_qualified_name(server, remote).len() <= MAX_TOOL_NAME,
        spec_qualified_name(server, remote).take(4) == seq!['m', 'c', 'p', '_'],
        forall|i: int|
            0 <= i < spec_qualified_name(server, remote).len() ==> is_tool_name_char(
                #[trigger] spec_qualified_name(server, remote)[i],
            ),
{
    let raw = seq!['m', 'c', 'p', '_'] + server + seq!['_'] + remote;
    let q = spec_qualified_name(server, remote);
    assert(raw[0] == 'm' && raw[1] == 'c' && raw[2] == 'p' && raw[3] == '_');
    assert(is_ascii_alnum('m') && is_ascii_alnum('c') && is_ascii_alnum('p'));
    assert(q.take(4) =~= seq!['m', 'c', 'p', '_']);
}

/// The program and arguments of a stdio server's `command`, or why it cannot
/// start.
pub fn command_parts(command: &Vec<String>) -> (r: Result<(String, Vec<String>), String>)
    ensures
        command@.len() == 0 ==> (r matches Err(m) && m@ == "`command` is empty"@),
        command@.len() > 0 ==> (r matches Ok((p, args)) && p@ == command@[0]@ && string_views(
            args@,
        ) == string_views(command@).drop_first()),
{
    if command.len() == 0 {
        return Err(string_of(&chars_of("`command` is empty")));
    }
    let mut args: Vec<String> = Vec::new();
    let mut i: usize = 1;
    while i < command.len()
        invariant
            1 <= i <= command@.len(),
            args@.len() == i - 1,
            forall|j: int| 0 <= j < i - 1 ==> #[trigger] args@[j]@ == command@[j + 1]@,
        decreases command@.len() - i,
    {
        args.push(command[i].clone());
        i += 1;
    }
    assert(string_views(args@) =~= string_views(command@).drop_first());
    Ok((command[0].clone(), args))
}

/// The remote tools kept from a server, as `(index, local name)`: each
/// tool's qualified name, skipping a tool whose qualified name an earlier
/// tool already took.
pub open spec fn spec_kept_tools(server: Seq<char>, remote: Seq<Seq<char>>) -> Seq<(int, Seq<char>)>
    decreases remote.len(),
{
    if remote.len() == 0 {
        Seq::empty()
    } else {
        let prev = spec_kept_tools(server, remote.drop_last());
        let q = spec_qualified_name(server, remote.last());
        if exists|k: int| 0 <= k < prev.len() && prev[k].1 == q {
            prev
        } else {
            prev.push((remote.len() - 1, q))
        }
    }
}

/// Name the tools a server lists, dropping later tools whose qualified name
/// collides with an earlier one.
pub fn kept_tools(server: &str, remote_names: &Vec<String>) -> (r: Vec<(usize, String)>)
    ensures
        Seq::new(r@.len(), |i: int| (r@[i].0 as int, r@[i].1@)) == spec_kept_tools(
            server@,
            string_views(remote_names@),
        ),
{
    let ghost rv = string_views(remote_names@);
    let mut out: Vec<(usize, String)> = Vec::new();
    let mut i: usize = 0;
    while i < remote_names.len()
        invariant
            rv == string_views(remote_names@),
            i <= remote_names@.len(),
            Seq::new(out@.len(), |j: int| (out@[j].0 as int, out@[j].1@)) == spec_kept_tools(
                server@,
                rv.take(i as int),
            ),
        decreases remote_names@.len() - i,
    {
        let ghost prev = spec_kept_tools(server@, rv.take(i as int));
        proof {
            assert(rv.take(i + 1).drop_last() =~= rv.take(i as int));
            assert(rv.take(i + 1).last() == remote_names@[i as int]@);
        }
        let q = qualified_name(server, remote_names[i].as_str());
        let qc = chars_of(q.as_str());
        let mut seen = false;
        let mut k: usize = 0;
        while k < out.len()
            invariant
                k <= out@.len(),
                qc@ == q@,
                prev == Seq::new(out@.len(), |j: int| (out@[j].0 as int, out@[j].1@)),
                seen ==> exists|t: int| 0 <= t < prev.len() && prev[t].1 == q@,
                !seen ==> forall|t: int| 0 <= t < k ==> #[trigger] prev[t].1 != q@,
            decreases out@.len() - k,
        {
            if chars_eq(&chars_of(out[k].1.as_str()), &qc) {
                seen = true;
                assert(prev[k as int].1 == q@);
            }
            k += 1;
        }
        if !seen {
            let ghost before = out@;
            out.push((i, q));
            proof {
                assert(Seq::new(out@.len(), |j: int| (out@[j].0 as int, out@[j].1@)) =~= prev.push(
                    (i as int, q@),
                ));
            }
        }
        i += 1;
    }
    proof {
        assert(rv.take(remote_names@.len() as int) =~= rv);
    }
    out
}

/// The arguments a tool call passes to an MCP server.
#[derive(Debug)]
pub enum CallArguments {
    /// An object's members.
    Members(Vec<(String, Json)>),
    /// No arguments (`null`).
    Absent,
    /// Anything else; the call is refused as invalid input.
    NotAnObject(Json),
}

/// Sort a call's input into arguments: an object passes its members, `null`
/// passes none, anything else is invalid.
pub fn call_arguments(input: Json) -> (r: CallArguments)
    ensures
        match input {
            Json::Object(m) => r matches CallArguments::Members(n) && n == m,
            Json::Null => r is Absent,
            other => r matches CallArguments::NotAnObject(o) && o == other,
        },
{
    match input {
        Json::Object(m) => CallArguments::Members(m),
        Json::Null => CallArguments::Absent,
        other => CallArguments::NotAnObject(other),
    }
}

/// The error for a call whose server could not be reached.
pub fn call_failure(remote_name: &str, error: &str) -> (r: ToolError)
    ensures
        r matches ToolError::Other { message, hint: Some(h) } && message@ == "MCP call to `"@
            + remote_name@ + "` failed: "@ + error@ && h@
            == "the MCP server may have exited; restart Mew to reconnect"@,
{
    let mut m = chars_of("MCP call to `");
    extend_str(&mut m, remote_name);
    extend_str(&mut m, "` failed: ");
    extend_str(&mut m, error);
    ToolError::Other {
        message: string_of(&m),
        hint: Some(string_of(&chars_of("the MCP server may have exited; restart Mew to reconnect"))),
    }
}

/// The text blocks of a result (`Some` for a text block), joined by `'\n'`.
pub open spec fn spec_result_text(blocks: Seq<Option<Seq<char>>>) -> Seq<char>
    decreases blocks.len(),
{
    if blocks.len() == 0 {
        Seq::empty()
    } else {
        let prev = spec_result_text(blocks.drop_last());
        match blocks.last() {
            Some(t) => if text_block_count(blocks.drop_last()) == 0 {
                t
            } else {
                prev + "\n"@ + t
            },
            None => prev,
        }
    }
}

/// Number of text blocks.
pub open spec fn text_block_count(blocks: Seq<Option<Seq<char>>>) -> nat
    decreases blocks.len(),
{
    if blocks.len() == 0 {
        0
    } else {
        text_block_count(blocks.drop_last()) + if blocks.last() is Some {
            1nat
        } else {
            0nat
        }
    }
}

proof fn lemma_no_text_blocks(blocks: Seq<Option<Seq<char>>>)
    requires
        text_block_count(blocks) == 0,
    ensures
        spec_result_text(blocks) == Seq::<char>::empty(),
    decreases blocks.len(),
{
    if blocks.len() > 0 {
        lemma_no_text_blocks(blocks.drop_last());
    }
}

/// The value of a list of result blocks.
pub open spec fn blocks_view(blocks: Seq<Option<String>>) -> Seq<Option<Seq<char>>> {
    Seq::new(
        blocks.len(),
        |i: int|
            match blocks[i] {
                Some(t) => Some(t@),
                None => None,
            },
    )
}

/// The text a result hands the model: its text blocks joined by newlines.
pub fn result_text(blocks: &Vec<Option<String>>) -> (r: String)
    ensures
        r@ == spec_result_text(blocks_view(blocks@)),
{
    let ghost bv = blocks_view(blocks@);
    let mut out: Vec<char> = Vec::new();
    let mut count: usize = 0;
    let mut i: usize = 0;
    while i < blocks.len()
        invariant
            bv == blocks_view(blocks@),
            i <= blocks@.len(),
            out@ == spec_result_text(bv.take(i as int)),
            count == text_block_count(bv.take(i as int)),
            count <= i,
        decreases blocks@.len() - i,
    {
        proof {
            assert(bv.take(i + 1).drop_last() =~= bv.take(i as int));
            assert(bv.take(i + 1).last() == bv[i as int]);
        }
        match &blocks[i] {
            Some(t) => {
                if count > 0 {
                    extend_str(&mut out, "\n");
                }
                extend_str(&mut out, t.as_str());
                count = count + 1;
                proof {
                    if count == 1 {
                        lemma_no_text_blocks(bv.take(i as int));
                        assert(out@ =~= t@);
                    }
                }
            },
            None => {},
        }
        i += 1;
    }
    proof {
        assert(bv.take(blocks@.len() as int) =~= bv);
    }
    string_of(&out)
}

/// What a successful call returns to the model: the structured result when
/// there is one; otherwise the text; when there is no text either, the number
/// of (non-text) content blocks.
pub open spec fn spec_tool_output(structured: Option<JsonV>, blocks: Seq<Option<Seq<char>>>) -> JsonV {
    match structured {
        Some(v) => v,
        None => if spec_result_text(blocks).len() == 0 {
            JsonV::Object(
                seq![("content_blocks"@, JsonV::Number(decimal(blocks.len())))],
            )
        } else {
            JsonV::Str(spec_result_text(blocks))
        },
    }
}

/// The model-facing output of a successful call.
pub fn tool_output(structured: Option<Json>, blocks: &Vec<Option<String>>) -> (r: Json)
    ensures
        r@ == spec_tool_output(
            match structured {
                Some(v) => Some(v@),
                None => None,
            },
            blocks_view(blocks@),
        ),
{
    match structured {
        Some(v) => v,
        None => {
            let text = result_text(blocks);
            if text.as_str().is_empty() {
                let mut n: Vec<char> = Vec::new();
                push_decimal(&mut n, blocks.len() as u64);
                let members = vec![(string_of(&chars_of("content_blocks")), Json::Number(string_of(&n)))];
                proof {
                    crate::json::lemma_members_view_index_all(members@);
                    assert(crate::json::members_view(members@) =~= seq![
                        ("content_blocks"@, JsonV::Number(decimal(blocks@.len()))),
                    ]);
                }
                Json::Object(members)
            } else {
                Json::Str(text)
            }
        },
    }
}

} // verus!

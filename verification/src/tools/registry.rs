//! Which tools a session gets, and which of them ask before running.

use vstd::prelude::*;

use crate::json::Json;
use crate::mcp::ToolAnnotations;
use crate::tools::approval::string_member;
use crate::tools::error::ToolError;
use crate::tools::policy::{plan_bash_gate, plan_denied_error, spec_plan_read_only};
use crate::text::{chars_of, extend_str, string_of};

verus! {

/// The built-in tools.
#[derive(Debug, Clone, Copy, PartialEq, Eq, Structural)]
pub enum ToolKind {
    ReadFile,
    ListDirectory,
    Glob,
    Grep,
    SkillsList,
    SkillView,
    TodoWrite,
    TodoRead,
    Memory,
    WriteFile,
    EditFile,
    Bash,
}

/// How a registered tool is wrapped.
#[derive(Debug, Clone, Copy, PartialEq, Eq, Structural)]
pub enum Guard {
    /// Runs as is.
    Plain,
    /// Visible, but every call is refused (Plan mode).
    PlanDenied,
    /// Only read-only inspection commands run (Plan mode shell).
    PlanReadOnly,
}

/// The tools of a session, in registration order: the read-only tools; the
/// todo tools when the session has a todo store; then the memory tool (when
/// there is a memory store), the file writers and the shell, plain when the
/// mode allows writes, otherwise blocked (the shell restricted to read-only
/// commands).
pub open spec fn spec_default_tools(allows_writes: bool, has_memory: bool, has_todos: bool) -> Seq<
    (ToolKind, Guard),
> {
    let read_only = seq![
        (ToolKind::ReadFile, Guard::Plain),
        (ToolKind::ListDirectory, Guard::Plain),
        (ToolKind::Glob, Guard::Plain),
        (ToolKind::Grep, Guard::Plain),
        (ToolKind::SkillsList, Guard::Plain),
        (ToolKind::SkillView, Guard::Plain),
    ];
    let todos = if has_todos {
        seq![(ToolKind::TodoWrite, Guard::Plain), (ToolKind::TodoRead, Guard::Plain)]
    } else {
        Seq::empty()
    };
    let writer = if allows_writes {
        Guard::Plain
    } else {
        Guard::PlanDenied
    };
    let memory = if has_memory {
        seq![(ToolKind::Memory, writer)]
    } else {
        Seq::empty()
    };
    let shell = if allows_writes {
        Guard::Plain
    } else {
        Guard::PlanReadOnly
    };
    read_only + todos + memory + seq![
        (ToolKind::WriteFile, writer),
        (ToolKind::EditFile, writer),
        (ToolKind::Bash, shell),
    ]
}

/// The tools to register for a session, each with its guard.
pub fn default_tools(allows_writes: bool, has_memory: bool, has_todos: bool) -> (r: Vec<
    (ToolKind, Guard),
>)
    ensures
        r@ == spec_default_tools(allows_writes, has_memory, has_todos),
{
    let mut out: Vec<(ToolKind, Guard)> = vec![
        (ToolKind::ReadFile, Guard::Plain),
        (ToolKind::ListDirectory, Guard::Plain),
        (ToolKind::Glob, Guard::Plain),
        (ToolKind::Grep, Guard::Plain),
        (ToolKind::SkillsList, Guard::Plain),
        (ToolKind::SkillView, Guard::Plain),
    ];
    if has_todos {
        out.push((ToolKind::TodoWrite, Guard::Plain));
        out.push((ToolKind::TodoRead, Guard::Plain));
    }
    let writer = if allows_writes {
        Guard::Plain
    } else {
        Guard::PlanDenied
    };
    if has_memory {
        out.push((ToolKind::Memory, writer));
    }
    out.push((ToolKind::WriteFile, writer));
    out.push((ToolKind::EditFile, writer));
    out.push(
        (
            ToolKind::Bash,
            if allows_writes {
                Guard::Plain
            } else {
                Guard::PlanReadOnly
            },
        ),
    );
    assert(out@ =~= spec_default_tools(allows_writes, has_memory, has_todos));
    out
}

/// Whether a call may run under `guard`: plain tools always run, Plan-denied
/// tools never, and the Plan-mode shell only for a read-only inspection
/// `command`.
pub open spec fn spec_guard_allows(guard: Guard, input: crate::json::JsonV) -> bool {
    match guard {
        Guard::Plain => true,
        Guard::PlanDenied => false,
        Guard::PlanReadOnly => spec_plan_read_only(string_member(input, "command"@)),
    }
}

/// The check a guarded tool makes before it runs: `Ok` lets the call through
/// to the tool; otherwise the rejection the tool answers with, without running.
pub fn guard_call(guard: Guard, tool_name: &str, input: &Json) -> (r: Result<(), ToolError>)
    ensures
        r is Ok <==> spec_guard_allows(guard, input@),
        guard == Guard::PlanDenied ==> (r matches Err(ToolError::Rejected { message, hint: Some(h) })
            && message@ == tool_name@ + " is blocked in Plan mode"@ && h@
            == "Explain that Plan mode is read-only. Ask the user to switch to Build mode to apply file edits or shell commands."@),
        guard == Guard::PlanReadOnly && r is Err ==> (r matches Err(
            ToolError::Rejected { message, hint: Some(h) },
        ) && message@ == "bash command is blocked in Plan mode"@ && h@
            == "Use read-only inspection commands only, or ask the user to switch to Build mode for commands that modify files, git state, or external systems."@),
{
    match guard {
        Guard::Plain => Ok(()),
        Guard::PlanDenied => Err(plan_denied_error(tool_name)),
        Guard::PlanReadOnly => plan_bash_gate(input),
    }
}

/// In Plan mode the memory tool and the file writers are registered denied
/// and the shell read-only, every other tool plain; in Build mode every tool
/// is plain. With `guard_call`, a write in Plan mode is refused without
/// running and the shell runs only read-only inspection commands.
pub proof fn lemma_plan_mode_guards(has_memory: bool, has_todos: bool)
    ensures
        forall|i: int|
            0 <= i < spec_default_tools(false, has_memory, has_todos).len() ==> {
                let (k, g) = #[trigger] spec_default_tools(false, has_memory, has_todos)[i];
                &&& (k == ToolKind::WriteFile || k == ToolKind::EditFile || k == ToolKind::Memory)
                    ==> g == Guard::PlanDenied
                &&& k == ToolKind::Bash ==> g == Guard::PlanReadOnly
                &&& !(k == ToolKind::WriteFile || k == ToolKind::EditFile || k == ToolKind::Memory
                    || k == ToolKind::Bash) ==> g == Guard::Plain
            },
        forall|i: int|
            0 <= i < spec_default_tools(true, has_memory, has_todos).len() ==> (
            #[trigger] spec_default_tools(true, has_memory, has_todos)[i]).1 == Guard::Plain,
{
}

/// A tool asks for approval in Build mode unless it is read-only or exempt.
pub fn needs_approval(annotations: &ToolAnnotations) -> (r: bool)
    ensures
        r == !(annotations.approval_exempt || annotations.read_only),
{
    !(annotations.approval_exempt || annotations.read_only)
}

/// The description of a tool that asks before running.
pub open spec fn spec_approval_description(description: Seq<char>) -> Seq<char> {
    description
        + "\n\n**Approval required:** Build mode asks the user before this tool executes. The user can allow once, allow matching calls in this chat session, or deny."@
}

/// Description of a tool wrapped to ask for approval.
pub fn approval_description(description: &str) -> (r: String)
    ensures
        r@ == spec_approval_description(description@),
{
    let mut out = chars_of(description);
    extend_str(
        &mut out,
        "\n\n**Approval required:** Build mode asks the user before this tool executes. The user can allow once, allow matching calls in this chat session, or deny.",
    );
    string_of(&out)
}

} // verus!

use mewcode::json::Json;
use mewcode::mcp::{
    call_arguments, call_failure, command_parts, kept_tools, result_text, tool_output, CallArguments,
    ToolAnnotations,
};
use mewcode::tools::error::ToolError;
use mewcode::tools::policy::{plan_bash_description, plan_bash_gate, plan_denied_description, plan_denied_error};
use mewcode::tools::registry::{approval_description, default_tools, guard_call, needs_approval, Guard, ToolKind};

fn s(text: &str) -> String {
    text.to_string()
}

#[test]
fn plan_mode_registers_blocked_writers_and_a_restricted_shell() {
    let build = default_tools(true, true, true);
    assert_eq!(build.len(), 12);
    assert_eq!(build[6], (ToolKind::TodoWrite, Guard::Plain));
    assert_eq!(build[8], (ToolKind::Memory, Guard::Plain));
    assert_eq!(build[11], (ToolKind::Bash, Guard::Plain));
    let plan = default_tools(false, false, false);
    assert_eq!(plan.len(), 9);
    assert_eq!(plan[6], (ToolKind::WriteFile, Guard::PlanDenied));
    assert_eq!(plan[8], (ToolKind::Bash, Guard::PlanReadOnly));
}

#[test]
fn approval_applies_to_mutating_tools_only() {
    let mutating = ToolAnnotations { read_only: false, destructive: true, open_world: true, idempotent: false, approval_exempt: false };
    assert!(needs_approval(&mutating));
    assert!(!needs_approval(&ToolAnnotations { read_only: true, ..mutating }));
    assert!(!needs_approval(&ToolAnnotations { approval_exempt: true, ..mutating }));
    assert!(approval_description("Edits files.").starts_with("Edits files.\n\n**Approval required:**"));
}

#[test]
fn plan_mode_descriptions_and_refusals() {
    assert!(plan_denied_description("Writes.").starts_with("Writes.\n\n**Plan mode:** This tool is visible"));
    let bash = plan_bash_description("Runs.");
    assert!(bash.contains("allowed here: git status, git log, git diff, git show, git branch, git stash list, ls, pwd, cat, grep, rg, wc, head, tail. Commands"));
    match plan_denied_error("write_file") {
        ToolError::Rejected { message, .. } => assert_eq!(message, "write_file is blocked in Plan mode"),
        other => panic!("unexpected {other:?}"),
    }
    let ok = Json::Object(vec![(s("command"), Json::Str(s("git log -3")))]);
    assert!(plan_bash_gate(&ok).is_ok());
    let bad = Json::Object(vec![(s("command"), Json::Str(s("git log > out")))]);
    match plan_bash_gate(&bad) {
        Err(ToolError::Rejected { message, .. }) => assert_eq!(message, "bash command is blocked in Plan mode"),
        other => panic!("unexpected {other:?}"),
    }
    assert!(plan_bash_gate(&Json::Null).is_err());
}

#[test]
fn mcp_servers_commands_names_and_results() {
    assert_eq!(command_parts(&vec![]), Err(s("`command` is empty")));
    assert_eq!(command_parts(&vec![s("npx"), s("-y"), s("srv")]), Ok((s("npx"), vec![s("-y"), s("srv")])));
    let kept = kept_tools("s", &vec![s("a.b"), s("a/b"), s("c")]);
    assert_eq!(kept, vec![(0, s("mcp_s_a_b")), (2, s("mcp_s_c"))]);
    assert!(matches!(call_arguments(Json::Null), CallArguments::Absent));
    assert!(matches!(call_arguments(Json::Object(vec![])), CallArguments::Members(m) if m.is_empty()));
    assert!(matches!(call_arguments(Json::Str(s("x"))), CallArguments::NotAnObject(Json::Str(_))));
    match call_failure("scrape", "closed") {
        ToolError::Other { message, .. } => assert_eq!(message, "MCP call to `scrape` failed: closed"),
        other => panic!("unexpected {other:?}"),
    }
    let blocks = vec![Some(s("one")), None, Some(s("two"))];
    assert_eq!(result_text(&blocks), "one\ntwo");
    assert!(matches!(tool_output(None, &blocks), Json::Str(t) if t == "one\ntwo"));
    match tool_output(None, &vec![None, None]) {
        Json::Object(m) => {
            assert_eq!(m[0].0, "content_blocks");
            assert!(matches!(&m[0].1, Json::Number(n) if n == "2"));
        }
        other => panic!("unexpected {other:?}"),
    }
    assert!(matches!(tool_output(Some(Json::Bool(true)), &blocks), Json::Bool(true)));
}

#[test]
fn plan_mode_guards_refuse_writes_and_mutating_shell_commands() {
    let cmd = |c: &str| Json::Object(vec![(s("command"), Json::Str(s(c)))]);
    for (kind, guard) in default_tools(false, true, true) {
        match kind {
            ToolKind::WriteFile | ToolKind::EditFile | ToolKind::Memory => {
                match guard_call(guard, "write_file", &Json::Null) {
                    Err(ToolError::Rejected { message, .. }) => assert_eq!(message, "write_file is blocked in Plan mode"),
                    other => panic!("unexpected {other:?}"),
                }
            }
            ToolKind::Bash => {
                assert!(guard_call(guard, "bash", &cmd("git status")).is_ok());
                assert!(matches!(guard_call(guard, "bash", &cmd("rm -rf x")),
                    Err(ToolError::Rejected { message, .. }) if message == "bash command is blocked in Plan mode"));
            }
            _ => assert!(guard_call(guard, "read_file", &Json::Null).is_ok()),
        }
    }
    for (_, guard) in default_tools(true, true, true) {
        assert!(guard_call(guard, "bash", &cmd("rm -rf x")).is_ok());
    }
}

//! Plan-mode policy: which shell commands count as read-only inspection, and
//! how tools that Plan mode blocks or restricts describe and refuse calls.

use vstd::prelude::*;

use crate::json::Json;
use crate::text::{
    chars_eq, chars_of, contains, contains_chars, extend_str, join_comma, occurs_at, push_join_comma,
    starts_with, starts_with_chars, string_of, trim, trim_chars, views,
};
use crate::tools::approval::{string_member, string_member_of};
use crate::tools::error::ToolError;

verus! {

/// Number of shell fragments that block a command in Plan mode.
pub const BLOCKED_SHELL_TOKEN_COUNT: usize = 11;

/// Number of allowed Plan-mode commands.
pub const PLAN_READ_ONLY_COMMAND_COUNT: usize = 14;

/// Shell composition and redirection fragments that are never allowed.
pub open spec fn blocked_token(i: int) -> Seq<char> {
    if i == 0 {
        ";"@
    } else if i == 1 {
        "&&"@
    } else if i == 2 {
        "||"@
    } else if i == 3 {
        "&"@
    } else if i == 4 {
        ">"@
    } else if i == 5 {
        "<"@
    } else if i == 6 {
        "|"@
    } else if i == 7 {
        "`"@
    } else if i == 8 {
        "$("@
    } else if i == 9 {
        "\n"@
    } else {
        "\r"@
    }
}

/// Read-only inspection commands allowed in Plan mode.
pub open spec fn plan_command(i: int) -> Seq<char> {
    if i == 0 {
        "git status"@
    } else if i == 1 {
        "git log"@
    } else if i == 2 {
        "git diff"@
    } else if i == 3 {
        "git show"@
    } else if i == 4 {
        "git branch"@
    } else if i == 5 {
        "git stash list"@
    } else if i == 6 {
        "ls"@
    } else if i == 7 {
        "pwd"@
    } else if i == 8 {
        "cat"@
    } else if i == 9 {
        "grep"@
    } else if i == 10 {
        "rg"@
    } else if i == 11 {
        "wc"@
    } else if i == 12 {
        "head"@
    } else {
        "tail"@
    }
}

fn blocked_token_str(i: usize) -> (r: &'static str)
    requires
        i < BLOCKED_SHELL_TOKEN_COUNT,
    ensures
        r@ == blocked_token(i as int),
{
    match i {
        0 => ";",
        1 => "&&",
        2 => "||",
        3 => "&",
        4 => ">",
        5 => "<",
        6 => "|",
        7 => "`",
        8 => "$(",
        9 => "\n",
        _ => "\r",
    }
}

fn plan_command_str(i: usize) -> (r: &'static str)
    requires
        i < PLAN_READ_ONLY_COMMAND_COUNT,
    ensures
        r@ == plan_command(i as int),
{
    match i {
        0 => "git status",
        1 => "git log",
        2 => "git diff",
        3 => "git show",
        4 => "git branch",
        5 => "git stash list",
        6 => "ls",
        7 => "pwd",
        8 => "cat",
        9 => "grep",
        10 => "rg",
        11 => "wc",
        12 => "head",
        _ => "tail",
    }
}

/// A command is allowed in Plan mode when, trimmed, it is non-empty, contains
/// no composition or redirection fragment, and is an allowed command exactly or
/// an allowed command followed by a space and arguments.
pub open spec fn spec_plan_read_only(command: Seq<char>) -> bool {
    let c = trim(command);
    &&& c.len() > 0
    &&& forall|i: int| 0 <= i < BLOCKED_SHELL_TOKEN_COUNT ==> !contains(c, #[trigger] blocked_token(i))
    &&& exists|i: int|
        0 <= i < PLAN_READ_ONLY_COMMAND_COUNT && (c == #[trigger] plan_command(i) || starts_with(
            c,
            plan_command(i) + " "@,
        ))
}

/// Whether `command` is a read-only inspection command allowed in Plan mode.
pub fn is_plan_read_only_command(command: &str) -> (r: bool)
    ensures
        r == spec_plan_read_only(command@),
{
    let c = trim_chars(&chars_of(command));
    if c.len() == 0 {
        return false;
    }
    let mut i: usize = 0;
    while i < BLOCKED_SHELL_TOKEN_COUNT
        invariant
            c@ == trim(command@),
            c@.len() > 0,
            i <= BLOCKED_SHELL_TOKEN_COUNT,
            forall|j: int| 0 <= j < i ==> !contains(c@, #[trigger] blocked_token(j)),
        decreases BLOCKED_SHELL_TOKEN_COUNT - i,
    {
        if contains_chars(&c, &chars_of(blocked_token_str(i))) {
            return false;
        }
        i += 1;
    }
    let mut k: usize = 0;
    while k < PLAN_READ_ONLY_COMMAND_COUNT
        invariant
            c@ == trim(command@),
            c@.len() > 0,
            forall|j: int| 0 <= j < BLOCKED_SHELL_TOKEN_COUNT ==> !contains(c@, #[trigger] blocked_token(j)),
            k <= PLAN_READ_ONLY_COMMAND_COUNT,
            forall|j: int|
                0 <= j < k ==> !(c@ == #[trigger] plan_command(j) || starts_with(
                    c@,
                    plan_command(j) + " "@,
                )),
        decreases PLAN_READ_ONLY_COMMAND_COUNT - k,
    {
        let allowed = chars_of(plan_command_str(k));
        let mut with_space = allowed.clone();
        extend_str(&mut with_space, " ");
        if chars_eq(&c, &allowed) || starts_with_chars(&c, &with_space) {
            assert(c@ == plan_command(k as int) || starts_with(c@, plan_command(k as int) + " "@));
            return true;
        }
        k += 1;
    }
    false
}


/// A character of an allowed command's name: a lowercase letter or a space.
pub open spec fn name_char(c: char) -> bool {
    ('a' <= c && c <= 'z') || c == ' '
}

proof fn lemma_plan_command_shape(i: int)
    requires
        0 <= i < PLAN_READ_ONLY_COMMAND_COUNT,
    ensures
        plan_command(i).len() > 0,
        plan_command(i)[0] != ' ',
        forall|k: int| 0 <= k < plan_command(i).len() ==> name_char(#[trigger] plan_command(i)[k]),
{
    if i == 0 {
        reveal_strlit("git status");
    } else if i == 1 {
        reveal_strlit("git log");
    } else if i == 2 {
        reveal_strlit("git diff");
    } else if i == 3 {
        reveal_strlit("git show");
    } else if i == 4 {
        reveal_strlit("git branch");
    } else if i == 5 {
        reveal_strlit("git stash list");
    } else if i == 6 {
        reveal_strlit("ls");
    } else if i == 7 {
        reveal_strlit("pwd");
    } else if i == 8 {
        reveal_strlit("cat");
    } else if i == 9 {
        reveal_strlit("grep");
    } else if i == 10 {
        reveal_strlit("rg");
    } else if i == 11 {
        reveal_strlit("wc");
    } else if i == 12 {
        reveal_strlit("head");
    } else {
        reveal_strlit("tail");
    }
}

proof fn lemma_token_shape(t: int)
    requires
        0 <= t < BLOCKED_SHELL_TOKEN_COUNT,
    ensures
        blocked_token(t).len() > 0,
        !name_char(blocked_token(t)[0]),
{
    reveal_strlit(";");
    reveal_strlit("&&");
    reveal_strlit("||");
    reveal_strlit("&");
    reveal_strlit(">");
    reveal_strlit("<");
    reveal_strlit("|");
    reveal_strlit("`");
    reveal_strlit("$(");
    reveal_strlit("\n");
    reveal_strlit("\r");
}

/// Every command the Plan-mode shell lists is accepted on its own, and
/// followed by a space and any arguments that hold no composition or
/// redirection fragment and do not end in whitespace.
pub proof fn lemma_listed_commands_are_allowed(i: int, args: Seq<char>)
    requires
        0 <= i < PLAN_READ_ONLY_COMMAND_COUNT,
    ensures
        spec_plan_read_only(plan_command(i)),
        args.len() > 0 && !crate::text::is_ws(args.last()) && (forall|t: int|
            0 <= t < BLOCKED_SHELL_TOKEN_COUNT ==> !contains(args, #[trigger] blocked_token(t)))
            ==> spec_plan_read_only(plan_command(i) + " "@ + args),
{
    lemma_plan_command_shape(i);
    let cmd = plan_command(i);
    reveal_strlit(" ");
    // The command alone.
    assert(!crate::text::is_ws(cmd[0]));
    assert(!crate::text::is_ws(cmd.last())) by {
        assert(name_char(cmd[cmd.len() - 1]));
        if cmd.last() == ' ' {
            // An allowed name never ends in a space.
            lemma_plan_command_last(i);
        }
    }
    assert(crate::text::trim_start(cmd) == cmd);
    assert(trim(cmd) == cmd);
    assert forall|t: int| 0 <= t < BLOCKED_SHELL_TOKEN_COUNT implies !contains(
        cmd,
        #[trigger] blocked_token(t),
    ) by {
        lemma_token_shape(t);
        if contains(cmd, blocked_token(t)) {
            let j = choose|j: int| occurs_at(cmd, blocked_token(t), j);
            assert(cmd.subrange(j, j + blocked_token(t).len())[0] == cmd[j]);
        }
    }
    assert(cmd == plan_command(i));
    // The command with arguments.
    if args.len() > 0 && !crate::text::is_ws(args.last()) && (forall|t: int|
        0 <= t < BLOCKED_SHELL_TOKEN_COUNT ==> !contains(args, #[trigger] blocked_token(t))) {
        let head = cmd + " "@;
        let c = head + args;
        assert(c[0] == cmd[0]);
        assert(c.last() == args.last());
        assert(crate::text::trim_start(c) == c);
        assert(crate::text::trim_end(c) == c);
        assert(trim(c) == c);
        assert(forall|k: int| 0 <= k < head.len() ==> name_char(#[trigger] head[k]));
        assert forall|t: int| 0 <= t < BLOCKED_SHELL_TOKEN_COUNT implies !contains(
            c,
            #[trigger] blocked_token(t),
        ) by {
            lemma_token_shape(t);
            let tok = blocked_token(t);
            if contains(c, tok) {
                let j = choose|j: int| occurs_at(c, tok, j);
                assert(c.subrange(j, j + tok.len())[0] == c[j]);
                if j < head.len() {
                    assert(c[j] == head[j]);
                } else {
                    assert(c.subrange(j, j + tok.len()) =~= args.subrange(
                        j - head.len(),
                        j - head.len() + tok.len(),
                    ));
                    assert(occurs_at(args, tok, j - head.len()));
                }
            }
        }
        assert(c.take(head.len() as int) =~= head);
        assert(starts_with(c, plan_command(i) + " "@));
    }
}

proof fn lemma_plan_command_last(i: int)
    requires
        0 <= i < PLAN_READ_ONLY_COMMAND_COUNT,
    ensures
        plan_command(i).last() != ' ',
{
    if i == 0 {
        reveal_strlit("git status");
    } else if i == 1 {
        reveal_strlit("git log");
    } else if i == 2 {
        reveal_strlit("git diff");
    } else if i == 3 {
        reveal_strlit("git show");
    } else if i == 4 {
        reveal_strlit("git branch");
    } else if i == 5 {
        reveal_strlit("git stash list");
    } else if i == 6 {
        reveal_strlit("ls");
    } else if i == 7 {
        reveal_strlit("pwd");
    } else if i == 8 {
        reveal_strlit("cat");
    } else if i == 9 {
        reveal_strlit("grep");
    } else if i == 10 {
        reveal_strlit("rg");
    } else if i == 11 {
        reveal_strlit("wc");
    } else if i == 12 {
        reveal_strlit("head");
    } else {
        reveal_strlit("tail");
    }
}

/// The allowed Plan-mode commands joined by `", "`.
pub open spec fn plan_commands_list() -> Seq<char> {
    join_comma(Seq::new(PLAN_READ_ONLY_COMMAND_COUNT as nat, |i: int| plan_command(i)))
}

/// The description a Plan-mode-denied tool shows: its own, then why it is
/// blocked.
pub open spec fn spec_plan_denied_description(description: Seq<char>) -> Seq<char> {
    description
        + "\n\n**Plan mode:** This tool is visible so denied requests are explicit, but executing it is blocked. Tell the user to switch to Build mode if they want this change applied."@
}

/// Description of a tool that Plan mode shows but blocks.
pub fn plan_denied_description(description: &str) -> (r: String)
    ensures
        r@ == spec_plan_denied_description(description@),
{
    let mut out = chars_of(description);
    extend_str(
        &mut out,
        "\n\n**Plan mode:** This tool is visible so denied requests are explicit, but executing it is blocked. Tell the user to switch to Build mode if they want this change applied.",
    );
    string_of(&out)
}

/// The rejection of any call of a tool that Plan mode blocks.
pub fn plan_denied_error(tool_name: &str) -> (r: ToolError)
    ensures
        r matches ToolError::Rejected { message, hint: Some(h) } && message@ == tool_name@
            + " is blocked in Plan mode"@ && h@
            == "Explain that Plan mode is read-only. Ask the user to switch to Build mode to apply file edits or shell commands."@,
{
    let mut m = chars_of(tool_name);
    extend_str(&mut m, " is blocked in Plan mode");
    ToolError::Rejected {
        message: string_of(&m),
        hint: Some(
            string_of(
                &chars_of(
                    "Explain that Plan mode is read-only. Ask the user to switch to Build mode to apply file edits or shell commands.",
                ),
            ),
        ),
    }
}

/// The description of the shell tool in Plan mode: its own, then the
/// commands it still runs.
pub open spec fn spec_plan_bash_description(description: Seq<char>) -> Seq<char> {
    description + "\n\n**Plan mode:** Only read-only inspection commands are allowed here: "@
        + plan_commands_list()
        + ". Commands with shell composition or redirection are blocked. Switch to Build mode for mutating commands."@
}

/// Description of the shell tool in Plan mode.
pub fn plan_bash_description(description: &str) -> (r: String)
    ensures
        r@ == spec_plan_bash_description(description@),
{
    let mut commands: Vec<Vec<char>> = Vec::new();
    let mut i: usize = 0;
    while i < PLAN_READ_ONLY_COMMAND_COUNT
        invariant
            i <= PLAN_READ_ONLY_COMMAND_COUNT,
            commands@.len() == i,
            forall|j: int| 0 <= j < i ==> #[trigger] commands@[j]@ == plan_command(j),
        decreases PLAN_READ_ONLY_COMMAND_COUNT - i,
    {
        commands.push(chars_of(plan_command_str(i)));
        i += 1;
    }
    proof {
        assert(views(commands@) =~= Seq::new(PLAN_READ_ONLY_COMMAND_COUNT as nat, |i: int| plan_command(i)));
    }
    let mut out = chars_of(description);
    extend_str(&mut out, "\n\n**Plan mode:** Only read-only inspection commands are allowed here: ");
    push_join_comma(&mut out, &commands);
    extend_str(
        &mut out,
        ". Commands with shell composition or redirection are blocked. Switch to Build mode for mutating commands.",
    );
    string_of(&out)
}

/// Whether a Plan-mode shell call may run: its `command` (empty when absent)
/// must be a read-only inspection command; otherwise the call is rejected.
pub fn plan_bash_gate(input: &Json) -> (r: Result<(), ToolError>)
    ensures
        r is Ok <==> spec_plan_read_only(string_member(input@, "command"@)),
        r matches Err(e) ==> (e matches ToolError::Rejected { message, hint: Some(h) } && message@
            == "bash command is blocked in Plan mode"@ && h@
            == "Use read-only inspection commands only, or ask the user to switch to Build mode for commands that modify files, git state, or external systems."@),
{
    let command = string_member_of(input, "command");
    if is_plan_read_only_command(command.as_str()) {
        Ok(())
    } else {
        Err(
            ToolError::Rejected {
                message: string_of(&chars_of("bash command is blocked in Plan mode")),
                hint: Some(
                    string_of(
                        &chars_of(
                            "Use read-only inspection commands only, or ask the user to switch to Build mode for commands that modify files, git state, or external systems.",
                        ),
                    ),
                ),
            },
        )
    }
}

} // verus!

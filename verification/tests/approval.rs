use mewcode::json::Json;
use mewcode::tools::approval::{
    approval_display, approval_request, decide, rejected, scope_label, ApprovalDecision, ApprovalEvent,
    ApprovalRules, ApprovalStep, ChoiceResponse,
};
use mewcode::tools::error::ToolError;

fn s(text: &str) -> String {
    text.to_string()
}

fn selected(id: &str, option: &str) -> ChoiceResponse {
    ChoiceResponse::Selected { request_id: s(id), option_id: s(option) }
}

#[test]
fn scope_comes_from_command_or_path() {
    let bash = Json::Object(vec![(s("command"), Json::Str(s("ls -la")))]);
    let edit = Json::Object(vec![(s("path"), Json::Str(s("src/a.rs")))]);
    assert_eq!(approval_display("bash", &bash), "ls -la");
    assert_eq!(approval_display("edit_file", &edit), "src/a.rs");
    assert_eq!(approval_display("edit_file", &bash), "");
    assert_eq!(scope_label("bash", "ls -la"), "command `ls -la`");
    assert_eq!(scope_label("edit_file", "src/a.rs"), "path `src/a.rs`");
    assert_eq!(scope_label("edit_file", ""), "this input");
}

#[test]
fn prompt_offers_four_options() {
    let req = approval_request("req-1", "bash", "command `ls`");
    assert_eq!(req.title, "Approve bash?");
    assert_eq!(req.prompt, "Allow bash for command `ls`?");
    let ids: Vec<&str> = req.options.iter().map(|o| o.id.as_str()).collect();
    assert_eq!(ids, vec!["allow_once", "allow_session", "always_allow", "deny"]);
}

#[test]
fn answers_for_other_prompts_deny() {
    assert_eq!(decide("r1", &selected("r1", "allow_once")), ApprovalDecision::AllowOnce);
    assert_eq!(decide("r1", &selected("r1", "allow_session")), ApprovalDecision::AllowSession);
    assert_eq!(decide("r1", &selected("r1", "always_allow")), ApprovalDecision::AlwaysAllow);
    assert_eq!(decide("r1", &selected("r1", "deny")), ApprovalDecision::Deny);
    assert_eq!(decide("r1", &selected("r2", "allow_once")), ApprovalDecision::Deny);
    assert_eq!(decide("r1", &ChoiceResponse::Cancelled { request_id: s("r1") }), ApprovalDecision::Deny);
}

#[test]
fn session_grant_covers_only_that_session() {
    let mut rules = ApprovalRules::new();
    assert!(!rules.is_allowed(1, "bash", "ls"));
    assert!(rules.apply_decision(ApprovalDecision::AllowSession, 1, "bash", "ls", Ok(())).is_ok());
    assert!(rules.is_allowed(1, "bash", "ls"));
    assert!(!rules.is_allowed(2, "bash", "ls"));
    assert!(!rules.is_allowed(1, "bash", "rm"));
}

#[test]
fn always_grant_covers_every_session_unless_saving_failed() {
    let mut rules = ApprovalRules::new();
    let failed = rules.apply_decision(ApprovalDecision::AlwaysAllow, 1, "bash", "ls", Err(s("disk full")));
    match failed {
        Err(ToolError::Rejected { message, .. }) => assert_eq!(message, "bash blocked: disk full"),
        other => panic!("expected a rejection, got {other:?}"),
    }
    assert!(!rules.is_allowed(1, "bash", "ls"));
    assert!(rules.apply_decision(ApprovalDecision::AlwaysAllow, 1, "bash", "ls", Ok(())).is_ok());
    assert!(rules.is_allowed(7, "bash", "ls"));
    assert!(rules.apply_decision(ApprovalDecision::AlwaysAllow, 1, "write_file", "", Ok(())).is_ok());
    assert!(rules.is_allowed(3, "write_file", "anything"));
}

#[test]
fn deny_and_allow_once_grant_nothing() {
    let mut rules = ApprovalRules::new();
    assert!(rules.apply_decision(ApprovalDecision::AllowOnce, 1, "bash", "ls", Ok(())).is_ok());
    assert!(!rules.is_allowed(1, "bash", "ls"));
    match rules.apply_decision(ApprovalDecision::Deny, 1, "bash", "ls", Ok(())) {
        Err(ToolError::Rejected { message, hint }) => {
            assert_eq!(message, "bash blocked: approval denied");
            assert_eq!(hint.as_deref(), Some("Ask the user for approval before retrying this tool call."));
        }
        other => panic!("expected a rejection, got {other:?}"),
    }
    match rejected("edit", "approval timed out") {
        ToolError::Rejected { message, .. } => assert_eq!(message, "edit blocked: approval timed out"),
        other => panic!("unexpected {other:?}"),
    }
}

#[test]
fn pending_answer_is_taken_once_by_its_session() {
    let mut rules = ApprovalRules::new();
    rules.register_pending("req-1", 5);
    assert_eq!(rules.pending_owner("req-1"), Some(5));
    assert!(!rules.take_pending("req-1", 6));
    assert!(rules.take_pending("req-1", 5));
    assert!(!rules.take_pending("req-1", 5));
    assert_eq!(rules.pending_owner("req-1"), None);
    rules.register_pending("req-2", 1);
    rules.remove_pending("req-2");
    assert_eq!(rules.pending_owner("req-2"), None);
}

#[test]
fn seeded_always_allow_rules_apply() {
    let seeds = vec![(s("bash"), Some(s("git status"))), (s("read"), None)];
    let rules = ApprovalRules::new().with_always_allowed(&seeds);
    assert!(rules.is_allowed(9, "bash", "git status"));
    assert!(!rules.is_allowed(9, "bash", "git push"));
    assert!(rules.is_allowed(9, "read", "x"));
}

fn bash(command: &str) -> Json {
    Json::Object(vec![(s("command"), Json::Str(s(command)))])
}

#[test]
fn seeded_rule_allows_and_an_unreachable_client_rejects() {
    let rules = ApprovalRules::new().with_always_allowed(&vec![(s("bash"), Some(s("ls")))]);
    let mut rules = rules;
    assert!(matches!(rules.begin_approval(0, "bash", &bash("ls"), "req-1"), ApprovalStep::Allowed));
    match rules.begin_approval(0, "bash", &bash("rm x"), "req-2") {
        ApprovalStep::Ask(req) => {
            assert_eq!(req.title, "Approve bash?");
            assert_eq!(req.prompt, "Allow bash for command `rm x`?");
        }
        other => panic!("unexpected {other:?}"),
    }
    assert_eq!(rules.pending_owner("req-2"), Some(0));
    match rules.finish_approval(ApprovalEvent::NotDelivered, "req-2", 0, "bash", &bash("rm x"), Ok(())) {
        Err(ToolError::Rejected { message, .. }) => assert_eq!(message, "bash blocked: no interactive client available"),
        other => panic!("unexpected {other:?}"),
    }
    assert_eq!(rules.pending_owner("req-2"), None);
}

#[test]
fn unanswered_prompt_times_out_and_answers_are_applied() {
    let mut rules = ApprovalRules::new();
    assert!(matches!(rules.begin_approval(3, "bash", &bash("make"), "r1"), ApprovalStep::Ask(_)));
    match rules.finish_approval(ApprovalEvent::TimedOut, "r1", 3, "bash", &bash("make"), Ok(())) {
        Err(ToolError::Rejected { message, .. }) => assert_eq!(message, "bash blocked: approval timed out"),
        other => panic!("unexpected {other:?}"),
    }
    assert!(matches!(rules.begin_approval(3, "bash", &bash("make"), "r2"), ApprovalStep::Ask(_)));
    assert!(rules.take_pending("r2", 3));
    let answer = ApprovalEvent::Answered(selected("r2", "allow_session"));
    assert!(rules.finish_approval(answer, "r2", 3, "bash", &bash("make"), Ok(())).is_ok());
    assert!(matches!(rules.begin_approval(3, "bash", &bash("make"), "r3"), ApprovalStep::Allowed));
    assert!(matches!(rules.begin_approval(4, "bash", &bash("make"), "r4"), ApprovalStep::Ask(_)));
}

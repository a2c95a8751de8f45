//! Tool approvals: the rules that let a tool call run without asking, the
//! approval prompt, and how a user's choice changes the rules.
//!
//! A rule is keyed by the tool name and the call's scope: the bash command, or
//! the file path for other tools. Session rules apply to one chat session;
//! always-allow rules apply across sessions, either to one scope or (scope
//! `None`) to every call of the tool.

use vstd::prelude::*;

use crate::json::{Json, JsonV};
use crate::text::{chars_eq, chars_of, extend_chars, extend_str, string_of};
use crate::tools::error::ToolError;

verus! {

/// Name of the shell tool, whose scope is its `command` argument.
pub const BASH_TOOL: &'static str = "bash";

/// How long an approval prompt waits for an answer.
pub const APPROVAL_TIMEOUT_MS: u64 = 120000;

/// Choice id: run only this call.
pub const CHOICE_ALLOW_ONCE: &'static str = "allow_once";

/// Choice id: run matching calls for the rest of the session.
pub const CHOICE_ALLOW_SESSION: &'static str = "allow_session";

/// Choice id: run matching calls in every session.
pub const CHOICE_ALWAYS_ALLOW: &'static str = "always_allow";

/// Choice id: reject the call.
pub const CHOICE_DENY: &'static str = "deny";

/// The string value of member `key`, or empty.
pub open spec fn string_member(input: JsonV, key: Seq<char>) -> Seq<char> {
    match input.get(key) {
        Some(JsonV::Str(s)) => s,
        _ => Seq::empty(),
    }
}

/// The scope a call is granted against: the bash command, or the file path
/// for other tools; empty when the input carries none.
pub open spec fn spec_approval_display(tool: Seq<char>, input: JsonV) -> Seq<char> {
    if tool == "bash"@ {
        string_member(input, "command"@)
    } else {
        string_member(input, "path"@)
    }
}

/// The string value of member `key` of `input`, or empty.
pub fn string_member_of(input: &Json, key: &str) -> (r: String)
    ensures
        r@ == string_member(input@, key@),
{
    match input.get(key) {
        Some(v) => match v.as_str() {
            Some(s) => s.clone(),
            None => String::new(),
        },
        None => String::new(),
    }
}

/// The scope string a tool call is granted against.
pub fn approval_display(tool_name: &str, input: &Json) -> (r: String)
    ensures
        r@ == spec_approval_display(tool_name@, input@),
{
    if chars_eq(&chars_of(tool_name), &chars_of(BASH_TOOL)) {
        string_member_of(input, "command")
    } else {
        string_member_of(input, "path")
    }
}

/// How the prompt names the scope.
pub open spec fn spec_scope_label(tool: Seq<char>, display: Seq<char>) -> Seq<char> {
    if display.len() == 0 {
        "this input"@
    } else if tool == "bash"@ {
        "command `"@ + display + "`"@
    } else {
        "path `"@ + display + "`"@
    }
}

/// How the approval prompt names a call's scope.
pub fn scope_label(tool_name: &str, display: &str) -> (r: String)
    ensures
        r@ == spec_scope_label(tool_name@, display@),
{
    let d = chars_of(display);
    if d.len() == 0 {
        return string_of(&chars_of("this input"));
    }
    let mut out = if chars_eq(&chars_of(tool_name), &chars_of(BASH_TOOL)) {
        chars_of("command `")
    } else {
        chars_of("path `")
    };
    extend_chars(&mut out, &d);
    extend_str(&mut out, "`");
    string_of(&out)
}

/// A session-scoped allow rule.
#[derive(Debug)]
pub struct SessionRule {
    pub session_id: u128,
    pub tool_name: String,
    pub scope: String,
}

/// A cross-session always-allow rule; `scope == None` covers the whole tool.
#[derive(Debug)]
pub struct PersistentRule {
    pub tool_name: String,
    pub scope: Option<String>,
}

/// A request waiting for the user's answer, owned by one session.
#[derive(Debug)]
pub struct PendingRequest {
    pub request_id: String,
    pub session_id: u128,
}

/// The approval state shared by one chat server.
#[derive(Debug)]
pub struct ApprovalRules {
    pub session_rules: Vec<SessionRule>,
    pub always_allowed: Vec<PersistentRule>,
    pub pending: Vec<PendingRequest>,
}

/// The value of the approval state.
pub struct ApprovalRulesV {
    pub session_rules: Set<(u128, Seq<char>, Seq<char>)>,
    pub always_allowed: Set<(Seq<char>, Option<Seq<char>>)>,
    pub pending: Seq<(Seq<char>, u128)>,
}

/// The value of an optional string.
pub open spec fn opt_str(s: Option<String>) -> Option<Seq<char>> {
    match s {
        Some(s) => Some(s@),
        None => None,
    }
}

impl View for ApprovalRules {
    type V = ApprovalRulesV;

    open spec fn view(&self) -> ApprovalRulesV {
        ApprovalRulesV {
            session_rules: Set::new(
                |r: (u128, Seq<char>, Seq<char>)|
                    exists|i: int|
                        0 <= i < self.session_rules@.len() && (
                        #[trigger] self.session_rules@[i]).session_id == r.0
                            && self.session_rules@[i].tool_name@ == r.1
                            && self.session_rules@[i].scope@ == r.2,
            ),
            always_allowed: Set::new(
                |r: (Seq<char>, Option<Seq<char>>)|
                    exists|i: int|
                        0 <= i < self.always_allowed@.len() && (
                        #[trigger] self.always_allowed@[i]).tool_name@ == r.0 && opt_str(
                            self.always_allowed@[i].scope,
                        ) == r.1,
            ),
            pending: pending_view(self.pending@),
        }
    }
}

/// A call is allowed without asking when its session has a rule for the tool
/// and scope, or an always-allow rule covers the whole tool or this scope.
pub open spec fn spec_is_allowed(
    s: ApprovalRulesV,
    session: u128,
    tool: Seq<char>,
    scope: Seq<char>,
) -> bool {
    ||| s.session_rules.contains((session, tool, scope))
    ||| s.always_allowed.contains((tool, None))
    ||| s.always_allowed.contains((tool, Some(scope)))
}

impl ApprovalRules {
    /// No rules and no pending requests.
    pub fn new() -> (r: Self)
        ensures
            r@.session_rules == Set::<(u128, Seq<char>, Seq<char>)>::empty(),
            r@.always_allowed == Set::<(Seq<char>, Option<Seq<char>>)>::empty(),
            r@.pending == Seq::<(Seq<char>, u128)>::empty(),
    {
        let r = Self { session_rules: Vec::new(), always_allowed: Vec::new(), pending: Vec::new() };
        assert(r@.session_rules =~= Set::empty());
        assert(r@.always_allowed =~= Set::empty());
        assert(r@.pending =~= Seq::empty());
        r
    }

    /// Whether a call runs without asking.
    pub fn is_allowed(&self, session_id: u128, tool_name: &str, scope: &str) -> (r: bool)
        ensures
            r == spec_is_allowed(self@, session_id, tool_name@, scope@),
    {
        let t = chars_of(tool_name);
        let sc = chars_of(scope);
        let mut i: usize = 0;
        while i < self.session_rules.len()
            invariant
                t@ == tool_name@,
                sc@ == scope@,
                i <= self.session_rules@.len(),
                forall|j: int|
                    0 <= j < i ==> !((#[trigger] self.session_rules@[j]).session_id == session_id
                        && self.session_rules@[j].tool_name@ == tool_name@
                        && self.session_rules@[j].scope@ == scope@),
            decreases self.session_rules@.len() - i,
        {
            let rule = &self.session_rules[i];
            if rule.session_id == session_id && chars_eq(&chars_of(rule.tool_name.as_str()), &t)
                && chars_eq(&chars_of(rule.scope.as_str()), &sc) {
                assert(self@.session_rules.contains((session_id, tool_name@, scope@)));
                return true;
            }
            i += 1;
        }
        let mut k: usize = 0;
        while k < self.always_allowed.len()
            invariant
                t@ == tool_name@,
                sc@ == scope@,
                k <= self.always_allowed@.len(),
                forall|j: int|
                    0 <= j < k ==> !((#[trigger] self.always_allowed@[j]).tool_name@ == tool_name@
                        && (opt_str(self.always_allowed@[j].scope) == None::<Seq<char>> || opt_str(
                        self.always_allowed@[j].scope,
                    ) == Some(scope@))),
            decreases self.always_allowed@.len() - k,
        {
            let rule = &self.always_allowed[k];
            if chars_eq(&chars_of(rule.tool_name.as_str()), &t) {
                match &rule.scope {
                    None => {
                        assert(self@.always_allowed.contains((tool_name@, None)));
                        return true;
                    },
                    Some(s) => {
                        if chars_eq(&chars_of(s.as_str()), &sc) {
                            assert(self@.always_allowed.contains((tool_name@, Some(scope@))));
                            return true;
                        }
                    },
                }
            }
            k += 1;
        }
        proof {
            if self@.session_rules.contains((session_id, tool_name@, scope@)) {
                let j = choose|j: int|
                    0 <= j < self.session_rules@.len() && (
                    #[trigger] self.session_rules@[j]).session_id == session_id
                        && self.session_rules@[j].tool_name@ == tool_name@
                        && self.session_rules@[j].scope@ == scope@;
                assert(false);
            }
            if self@.always_allowed.contains((tool_name@, None)) {
                let j = choose|j: int|
                    0 <= j < self.always_allowed@.len() && (
                    #[trigger] self.always_allowed@[j]).tool_name@ == tool_name@ && opt_str(
                        self.always_allowed@[j].scope,
                    ) == None::<Seq<char>>;
                assert(false);
            }
            if self@.always_allowed.contains((tool_name@, Some(scope@))) {
                let j = choose|j: int|
                    0 <= j < self.always_allowed@.len() && (
                    #[trigger] self.always_allowed@[j]).tool_name@ == tool_name@ && opt_str(
                        self.always_allowed@[j].scope,
                    ) == Some(scope@);
                assert(false);
            }
        }
        false
    }

    /// Allow `(tool, scope)` for the rest of `session_id`.
    pub fn grant_session(&mut self, session_id: u128, tool_name: &str, scope: &str)
        ensures
            final(self)@.session_rules == old(self)@.session_rules.insert(
                (session_id, tool_name@, scope@),
            ),
            final(self)@.always_allowed == old(self)@.always_allowed,
            final(self)@.pending == old(self)@.pending,
    {
        let ghost before = self.session_rules@;
        let rule = SessionRule {
            session_id,
            tool_name: string_of(&chars_of(tool_name)),
            scope: string_of(&chars_of(scope)),
        };
        self.session_rules.push(rule);
        proof {
            assert forall|r: (u128, Seq<char>, Seq<char>)|
                #![trigger self@.session_rules.contains(r)]
                self@.session_rules.contains(r) <==> old(self)@.session_rules.insert(
                    (session_id, tool_name@, scope@),
                ).contains(r) by {
                if old(self)@.session_rules.contains(r) {
                    let i = choose|i: int|
                        0 <= i < before.len() && (#[trigger] before[i]).session_id == r.0
                            && before[i].tool_name@ == r.1 && before[i].scope@ == r.2;
                    assert(self.session_rules@[i] == before[i]);
                }
                if self@.session_rules.contains(r) && r != (session_id, tool_name@, scope@) {
                    let i = choose|i: int|
                        0 <= i < self.session_rules@.len() && (
                        #[trigger] self.session_rules@[i]).session_id == r.0
                            && self.session_rules@[i].tool_name@ == r.1
                            && self.session_rules@[i].scope@ == r.2;
                    assert(i < before.len());
                    assert(before[i] == self.session_rules@[i]);
                }
                if r == (session_id, tool_name@, scope@) {
                    assert(self.session_rules@[before.len() as int] == rule);
                }
            }
            assert(self@.session_rules =~= old(self)@.session_rules.insert(
                (session_id, tool_name@, scope@),
            ));
            assert(self@.always_allowed =~= old(self)@.always_allowed);
            assert(self@.pending =~= old(self)@.pending);
        }
    }

    /// Allow `tool` in every session: for one scope, or for the whole tool when
    /// `scope` is `None`.
    pub fn grant_always(&mut self, tool_name: &str, scope: Option<&str>)
        ensures
            final(self)@.always_allowed == old(self)@.always_allowed.insert(
                (
                    tool_name@,
                    match scope {
                        Some(s) => Some(s@),
                        None => None,
                    },
                ),
            ),
            final(self)@.session_rules == old(self)@.session_rules,
            final(self)@.pending == old(self)@.pending,
    {
        let ghost before = self.always_allowed@;
        let ghost key = (
            tool_name@,
            match scope {
                Some(s) => Some(s@),
                None => None::<Seq<char>>,
            },
        );
        let rule = PersistentRule {
            tool_name: string_of(&chars_of(tool_name)),
            scope: match scope {
                Some(s) => Some(string_of(&chars_of(s))),
                None => None,
            },
        };
        self.always_allowed.push(rule);
        proof {
            assert forall|r: (Seq<char>, Option<Seq<char>>)|
                #![trigger self@.always_allowed.contains(r)]
                self@.always_allowed.contains(r) <==> old(self)@.always_allowed.insert(
                    key,
                ).contains(r) by {
                if old(self)@.always_allowed.contains(r) {
                    let i = choose|i: int|
                        0 <= i < before.len() && (#[trigger] before[i]).tool_name@ == r.0
                            && opt_str(before[i].scope) == r.1;
                    assert(self.always_allowed@[i] == before[i]);
                }
                if self@.always_allowed.contains(r) && r != key {
                    let i = choose|i: int|
                        0 <= i < self.always_allowed@.len() && (
                        #[trigger] self.always_allowed@[i]).tool_name@ == r.0 && opt_str(
                            self.always_allowed@[i].scope,
                        ) == r.1;
                    assert(i < before.len());
                    assert(before[i] == self.always_allowed@[i]);
                }
                if r == key {
                    assert(self.always_allowed@[before.len() as int] == rule);
                }
            }
            assert(self@.always_allowed =~= old(self)@.always_allowed.insert(key));
            assert(self@.session_rules =~= old(self)@.session_rules);
            assert(self@.pending =~= old(self)@.pending);
        }
    }

    /// Drop every pending entry for `request_id`.
    pub fn remove_pending(&mut self, request_id: &str)
        ensures
            final(self)@.pending == without(old(self)@.pending, request_id@),
            final(self)@.session_rules == old(self)@.session_rules,
            final(self)@.always_allowed == old(self)@.always_allowed,
    {
        let id = chars_of(request_id);
        let ghost old_view = self@.pending;
        let mut kept: Vec<PendingRequest> = Vec::new();
        let mut all: Vec<PendingRequest> = Vec::new();
        std::mem::swap(&mut all, &mut self.pending);
        let ghost src = all@;
        assert(pending_view(src) == old_view);
        let mut i: usize = 0;
        while i < all.len()
            invariant
                id@ == request_id@,
                src == all@,
                i <= src.len(),
                pending_view(kept@) == without(pending_view(src).take(i as int), request_id@),
            decreases src.len() - i,
        {
            let e = &all[i];
            proof {
                assert(pending_view(src).take(i + 1).drop_last() =~= pending_view(src).take(
                    i as int,
                ));
            }
            if !chars_eq(&chars_of(e.request_id.as_str()), &id) {
                let ghost before = kept@;
                kept.push(PendingRequest { request_id: e.request_id.clone(), session_id: e.session_id });
                assert(pending_view(kept@) =~= pending_view(before).push(
                    (e.request_id@, e.session_id),
                ));
            }
            i += 1;
        }
        assert(pending_view(src).take(src.len() as int) =~= pending_view(src));
        self.pending = kept;
        assert(self@.session_rules =~= old(self)@.session_rules);
        assert(self@.always_allowed =~= old(self)@.always_allowed);
    }

    /// Record that `request_id` awaits an answer from `session_id`, replacing
    /// any earlier entry for the same id.
    pub fn register_pending(&mut self, request_id: &str, session_id: u128)
        ensures
            final(self)@.pending == without(old(self)@.pending, request_id@).push(
                (request_id@, session_id),
            ),
            final(self)@.session_rules == old(self)@.session_rules,
            final(self)@.always_allowed == old(self)@.always_allowed,
    {
        self.remove_pending(request_id);
        let ghost before = self.pending@;
        self.pending.push(PendingRequest { request_id: string_of(&chars_of(request_id)), session_id });
        assert(pending_view(self.pending@) =~= pending_view(before).push((request_id@, session_id)));
        assert(self@.session_rules =~= old(self)@.session_rules);
        assert(self@.always_allowed =~= old(self)@.always_allowed);
    }

    /// The session that owns `request_id`, if it is pending.
    pub fn pending_owner(&self, request_id: &str) -> (r: Option<u128>)
        ensures
            r == owner(self@.pending, request_id@),
    {
        let id = chars_of(request_id);
        let ghost v = self@.pending;
        let mut i: usize = self.pending.len();
        assert(v.take(i as int) =~= v);
        while i > 0
            invariant
                id@ == request_id@,
                v == self@.pending,
                i <= v.len(),
                owner(v, request_id@) == owner(v.take(i as int), request_id@),
            decreases i,
        {
            let e = &self.pending[i - 1];
            proof {
                assert(v.take(i as int).drop_last() =~= v.take(i - 1));
                assert(v.take(i as int).last() == v[i - 1]);
                assert(v[i - 1] == (e.request_id@, e.session_id));
            }
            if chars_eq(&chars_of(e.request_id.as_str()), &id) {
                return Some(e.session_id);
            }
            i -= 1;
        }
        assert(v.take(0) =~= Seq::<(Seq<char>, u128)>::empty());
        None
    }

    /// Resolve a pending request for its owning session: returns `true` and
    /// removes the request when `session_id` owns it; otherwise changes nothing.
    pub fn take_pending(&mut self, request_id: &str, session_id: u128) -> (r: bool)
        ensures
            r == (owner(old(self)@.pending, request_id@) == Some(session_id)),
            r ==> final(self)@.pending == without(old(self)@.pending, request_id@),
            !r ==> final(self)@.pending == old(self)@.pending,
            final(self)@.session_rules == old(self)@.session_rules,
            final(self)@.always_allowed == old(self)@.always_allowed,
    {
        match self.pending_owner(request_id) {
            Some(owner_id) => {
                if owner_id == session_id {
                    self.remove_pending(request_id);
                    true
                } else {
                    false
                }
            },
            None => false,
        }
    }
}

/// The pending requests as `(request id, owning session)` pairs.
pub open spec fn pending_view(p: Seq<PendingRequest>) -> Seq<(Seq<char>, u128)> {
    Seq::new(p.len(), |i: int| (p[i].request_id@, p[i].session_id))
}

/// `ps` without the entries for `id`.
pub open spec fn without(ps: Seq<(Seq<char>, u128)>, id: Seq<char>) -> Seq<(Seq<char>, u128)>
    decreases ps.len(),
{
    if ps.len() == 0 {
        ps
    } else if ps.last().0 == id {
        without(ps.drop_last(), id)
    } else {
        without(ps.drop_last(), id).push(ps.last())
    }
}

/// The owner of the latest entry for `id`.
pub open spec fn owner(ps: Seq<(Seq<char>, u128)>, id: Seq<char>) -> Option<u128>
    decreases ps.len(),
{
    if ps.len() == 0 {
        None
    } else if ps.last().0 == id {
        Some(ps.last().1)
    } else {
        owner(ps.drop_last(), id)
    }
}

/// Once removed, a request has no owner.
pub proof fn lemma_without_has_no_owner(ps: Seq<(Seq<char>, u128)>, id: Seq<char>)
    ensures
        owner(without(ps, id), id) is None,
    decreases ps.len(),
{
    if ps.len() > 0 {
        lemma_without_has_no_owner(ps.drop_last(), id);
        if ps.last().0 != id {
            let w = without(ps.drop_last(), id);
            assert(w.push(ps.last()).drop_last() =~= w);
        }
    }
}

/// Removing one request leaves the owners of all other requests unchanged.
pub proof fn lemma_without_keeps_others(
    ps: Seq<(Seq<char>, u128)>,
    id: Seq<char>,
    other: Seq<char>,
)
    requires
        other != id,
    ensures
        owner(without(ps, id), other) == owner(ps, other),
    decreases ps.len(),
{
    if ps.len() > 0 {
        lemma_without_keeps_others(ps.drop_last(), id, other);
        if ps.last().0 != id {
            let w = without(ps.drop_last(), id);
            assert(w.push(ps.last()).drop_last() =~= w);
        }
    }
}

/// An answer resolves a request at most once, and only for its own session:
/// after a successful take, the request is gone, so a repeated answer fails;
/// an answer from another session changes nothing.
pub proof fn lemma_answer_once(ps: Seq<(Seq<char>, u128)>, id: Seq<char>, session: u128)
    requires
        owner(ps, id) == Some(session),
    ensures
        owner(without(ps, id), id) != Some(session),
{
    lemma_without_has_no_owner(ps, id);
}

/// A request registered for a session is owned by that session.
pub proof fn lemma_register_owns(ps: Seq<(Seq<char>, u128)>, id: Seq<char>, session: u128)
    ensures
        owner(without(ps, id).push((id, session)), id) == Some(session),
{
    assert(without(ps, id).push((id, session)).last() == (id, session));
}

/// The user's answer to a choice prompt.
#[derive(Debug)]
pub enum ChoiceResponse {
    Selected { request_id: String, option_id: String },
    Cancelled { request_id: String },
}

/// One option offered by a choice prompt.
#[derive(Debug)]
pub struct ChoiceOption {
    pub id: String,
    pub label: String,
    pub description: Option<String>,
}

/// A choice prompt sent to the interactive client.
#[derive(Debug)]
pub struct ChoiceRequest {
    pub request_id: String,
    pub title: String,
    pub prompt: String,
    pub options: Vec<ChoiceOption>,
    pub timeout_ms: u64,
}

/// What an answer to an approval prompt grants.
#[derive(Debug, Clone, Copy, PartialEq, Eq, Structural)]
pub enum ApprovalDecision {
    AllowOnce,
    AllowSession,
    AlwaysAllow,
    Deny,
}

/// The request id an answer refers to.
pub fn response_request_id(response: &ChoiceResponse) -> (r: &String)
    ensures
        r == match response {
            ChoiceResponse::Selected { request_id, .. } => request_id,
            ChoiceResponse::Cancelled { request_id } => request_id,
        },
{
    match response {
        ChoiceResponse::Selected { request_id, .. } => request_id,
        ChoiceResponse::Cancelled { request_id } => request_id,
    }
}

/// The grant an answer makes for the prompt `request_id`: a selection of one
/// of the three allow options on this very prompt; anything else denies.
pub open spec fn spec_decide(request_id: Seq<char>, response: ChoiceResponse) -> ApprovalDecision {
    match response {
        ChoiceResponse::Selected { request_id: id, option_id } => if id@ != request_id {
            ApprovalDecision::Deny
        } else if option_id@ == "allow_once"@ {
            ApprovalDecision::AllowOnce
        } else if option_id@ == "allow_session"@ {
            ApprovalDecision::AllowSession
        } else if option_id@ == "always_allow"@ {
            ApprovalDecision::AlwaysAllow
        } else {
            ApprovalDecision::Deny
        },
        ChoiceResponse::Cancelled { .. } => ApprovalDecision::Deny,
    }
}

/// What the user's answer grants for the prompt `request_id`.
pub fn decide(request_id: &str, response: &ChoiceResponse) -> (r: ApprovalDecision)
    ensures
        r == spec_decide(request_id@, *response),
{
    match response {
        ChoiceResponse::Selected { request_id: id, option_id } => {
            if !chars_eq(&chars_of(id.as_str()), &chars_of(request_id)) {
                return ApprovalDecision::Deny;
            }
            let o = chars_of(option_id.as_str());
            if chars_eq(&o, &chars_of(CHOICE_ALLOW_ONCE)) {
                ApprovalDecision::AllowOnce
            } else if chars_eq(&o, &chars_of(CHOICE_ALLOW_SESSION)) {
                ApprovalDecision::AllowSession
            } else if chars_eq(&o, &chars_of(CHOICE_ALWAYS_ALLOW)) {
                ApprovalDecision::AlwaysAllow
            } else {
                ApprovalDecision::Deny
            }
        },
        ChoiceResponse::Cancelled { .. } => ApprovalDecision::Deny,
    }
}

fn some_string(s: &str) -> (r: Option<String>)
    ensures
        r matches Some(v) && v@ == s@,
{
    Some(string_of(&chars_of(s)))
}

fn owned(s: &str) -> (r: String)
    ensures
        r@ == s@,
{
    string_of(&chars_of(s))
}

/// The approval prompt for one tool call: title `"Approve <tool>?"`, prompt
/// `"Allow <tool> for <scope>?"`, and the options allow once, allow this
/// session, always allow, deny, in that order.
pub fn approval_request(request_id: &str, tool_name: &str, scope_label: &str) -> (r: ChoiceRequest)
    ensures
        r.request_id@ == request_id@,
        r.title@ == "Approve "@ + tool_name@ + "?"@,
        r.prompt@ == "Allow "@ + tool_name@ + " for "@ + scope_label@ + "?"@,
        r.options@.len() == 4,
        r.options@[0].id@ == "allow_once"@,
        r.options@[1].id@ == "allow_session"@,
        r.options@[2].id@ == "always_allow"@,
        r.options@[3].id@ == "deny"@,
        r.timeout_ms == APPROVAL_TIMEOUT_MS,
{
    let mut title = chars_of("Approve ");
    extend_str(&mut title, tool_name);
    extend_str(&mut title, "?");
    let mut prompt = chars_of("Allow ");
    extend_str(&mut prompt, tool_name);
    extend_str(&mut prompt, " for ");
    extend_str(&mut prompt, scope_label);
    extend_str(&mut prompt, "?");
    let mut options: Vec<ChoiceOption> = Vec::new();
    options.push(
        ChoiceOption {
            id: owned(CHOICE_ALLOW_ONCE),
            label: owned("Allow once"),
            description: some_string("Run only this tool call."),
        },
    );
    options.push(
        ChoiceOption {
            id: owned(CHOICE_ALLOW_SESSION),
            label: owned("Allow this session"),
            description: some_string("Run matching calls in this chat session."),
        },
    );
    options.push(
        ChoiceOption {
            id: owned(CHOICE_ALWAYS_ALLOW),
            label: owned("Always allow"),
            description: some_string(
                "Never ask for this specific command or path again, across sessions (saved to Mew settings).",
            ),
        },
    );
    options.push(
        ChoiceOption {
            id: owned(CHOICE_DENY),
            label: owned("Deny"),
            description: some_string("Return a rejected tool result."),
        },
    );
    ChoiceRequest {
        request_id: owned(request_id),
        title: string_of(&title),
        prompt: string_of(&prompt),
        options,
        timeout_ms: APPROVAL_TIMEOUT_MS,
    }
}

/// The rejection returned when a call may not run.
pub open spec fn is_rejection(e: ToolError, tool: Seq<char>, message: Seq<char>) -> bool {
    e matches ToolError::Rejected { message: m, hint: Some(h) } && m@ == tool + " blocked: "@
        + message && h@ == "Ask the user for approval before retrying this tool call."@
}

/// The rejection returned when a call may not run.
pub fn rejected(tool_name: &str, message: &str) -> (r: ToolError)
    ensures
        is_rejection(r, tool_name@, message@),
{
    let mut m = chars_of(tool_name);
    extend_str(&mut m, " blocked: ");
    extend_str(&mut m, message);
    ToolError::Rejected {
        message: string_of(&m),
        hint: some_string("Ask the user for approval before retrying this tool call."),
    }
}

/// The scope an always-allow grant is saved with: the call's scope, or the
/// whole tool when the call has none.
pub open spec fn persist_scope(display: Seq<char>) -> Option<Seq<char>> {
    if display.len() == 0 {
        None
    } else {
        Some(display)
    }
}

impl ApprovalRules {
    /// Apply the user's decision for a call of `tool_name` with scope `display`
    /// in `session_id`. `persisted` is the host's answer to saving an
    /// always-allow rule; when saving failed the rule is not granted.
    pub fn apply_decision(
        &mut self,
        decision: ApprovalDecision,
        session_id: u128,
        tool_name: &str,
        display: &str,
        persisted: Result<(), String>,
    ) -> (r: Result<(), ToolError>)
        ensures
            final(self)@.pending == old(self)@.pending,
            decision == ApprovalDecision::AllowOnce ==> r is Ok && final(self)@ == old(self)@,
            decision == ApprovalDecision::AllowSession ==> r is Ok && final(self)@.session_rules
                == old(self)@.session_rules.insert((session_id, tool_name@, display@))
                && final(self)@.always_allowed == old(self)@.always_allowed,
            decision == ApprovalDecision::AlwaysAllow ==> match persisted {
                Ok(_) => r is Ok && final(self)@.always_allowed == old(self)@.always_allowed.insert(
                    (tool_name@, persist_scope(display@)),
                ) && final(self)@.session_rules == old(self)@.session_rules,
                Err(m) => (r matches Err(e) && is_rejection(e, tool_name@, m@) && final(self)@
                    == old(self)@),
            },
            decision == ApprovalDecision::Deny ==> (r matches Err(e) && is_rejection(
                e,
                tool_name@,
                "approval denied"@,
            ) && final(self)@ == old(self)@),
    {
        match decision {
            ApprovalDecision::AllowOnce => Ok(()),
            ApprovalDecision::AllowSession => {
                self.grant_session(session_id, tool_name, display);
                Ok(())
            },
            ApprovalDecision::AlwaysAllow => {
                match persisted {
                    Err(m) => Err(rejected(tool_name, m.as_str())),
                    Ok(_) => {
                        if chars_of(display).len() == 0 {
                            self.grant_always(tool_name, None);
                        } else {
                            self.grant_always(tool_name, Some(display));
                        }
                        Ok(())
                    },
                }
            },
            ApprovalDecision::Deny => Err(rejected(tool_name, "approval denied")),
        }
    }

    /// Preload cross-session always-allow rules from host settings.
    pub fn with_always_allowed(self, seeds: &Vec<(String, Option<String>)>) -> (r: Self)
        ensures
            r@.session_rules == self@.session_rules,
            r@.pending == self@.pending,
            forall|t: Seq<char>, sc: Option<Seq<char>>|
                #![trigger r@.always_allowed.contains((t, sc))]
                r@.always_allowed.contains((t, sc)) <==> (self@.always_allowed.contains((t, sc))
                    || exists|i: int|
                    0 <= i < seeds@.len() && (#[trigger] seeds@[i]).0@ == t && opt_str(
                        seeds@[i].1,
                    ) == sc),
    {
        let mut s = self;
        let mut i: usize = 0;
        while i < seeds.len()
            invariant
                i <= seeds@.len(),
                s@.session_rules == self@.session_rules,
                s@.pending == self@.pending,
                forall|t: Seq<char>, sc: Option<Seq<char>>|
                    #![trigger s@.always_allowed.contains((t, sc))]
                    s@.always_allowed.contains((t, sc)) <==> (self@.always_allowed.contains(
                        (t, sc),
                    ) || exists|j: int|
                        0 <= j < i && (#[trigger] seeds@[j]).0@ == t && opt_str(seeds@[j].1)
                            == sc),
            decreases seeds@.len() - i,
        {
            let (t, sc) = &seeds[i];
            let ghost before = s@.always_allowed;
            match sc {
                Some(v) => s.grant_always(t.as_str(), Some(v.as_str())),
                None => s.grant_always(t.as_str(), None),
            }
            proof {
                assert forall|t2: Seq<char>, sc2: Option<Seq<char>>|
                    #![trigger s@.always_allowed.contains((t2, sc2))]
                    s@.always_allowed.contains((t2, sc2)) <==> (self@.always_allowed.contains(
                        (t2, sc2),
                    ) || exists|j: int|
                        0 <= j < i + 1 && (#[trigger] seeds@[j]).0@ == t2 && opt_str(seeds@[j].1)
                            == sc2) by {
                    if (t2, sc2) == (t@, opt_str(*sc)) {
                        assert(seeds@[i as int].0@ == t2);
                    }
                    if exists|j: int|
                        0 <= j < i + 1 && (#[trigger] seeds@[j]).0@ == t2 && opt_str(seeds@[j].1)
                            == sc2 {
                        let j = choose|j: int|
                            0 <= j < i + 1 && (#[trigger] seeds@[j]).0@ == t2 && opt_str(
                                seeds@[j].1,
                            ) == sc2;
                        if j < i {
                            assert(before.contains((t2, sc2)));
                        }
                    }
                }
            }
            i += 1;
        }
        s
    }
}

/// A prompt as `approval_request` builds it.
pub open spec fn is_approval_request(
    r: ChoiceRequest,
    request_id: Seq<char>,
    tool: Seq<char>,
    label: Seq<char>,
) -> bool {
    &&& r.request_id@ == request_id
    &&& r.title@ == "Approve "@ + tool + "?"@
    &&& r.prompt@ == "Allow "@ + tool + " for "@ + label + "?"@
    &&& r.options@.len() == 4
    &&& r.options@[0].id@ == "allow_once"@
    &&& r.options@[1].id@ == "allow_session"@
    &&& r.options@[2].id@ == "always_allow"@
    &&& r.options@[3].id@ == "deny"@
    &&& r.timeout_ms == APPROVAL_TIMEOUT_MS
}

/// The first step of approving a call.
#[derive(Debug)]
pub enum ApprovalStep {
    /// A rule already covers the call: it runs without asking.
    Allowed,
    /// Send this prompt to the interactive client and wait for the answer.
    Ask(ChoiceRequest),
}

/// What came of an approval prompt.
#[derive(Debug)]
pub enum ApprovalEvent {
    /// The prompt could not be delivered: no client listens.
    NotDelivered,
    /// No answer came within [`APPROVAL_TIMEOUT_MS`].
    TimedOut,
    /// The client answered.
    Answered(ChoiceResponse),
}

/// The state and result after `apply_decision`.
pub open spec fn spec_applied(
    before: ApprovalRulesV,
    after: ApprovalRulesV,
    r: Result<(), ToolError>,
    decision: ApprovalDecision,
    session_id: u128,
    tool: Seq<char>,
    display: Seq<char>,
    persisted: Result<(), String>,
) -> bool {
    &&& after.pending == before.pending
    &&& decision == ApprovalDecision::AllowOnce ==> r is Ok && after == before
    &&& decision == ApprovalDecision::AllowSession ==> r is Ok && after.session_rules
        == before.session_rules.insert((session_id, tool, display)) && after.always_allowed
        == before.always_allowed
    &&& decision == ApprovalDecision::AlwaysAllow ==> match persisted {
        Ok(_) => r is Ok && after.always_allowed == before.always_allowed.insert(
            (tool, persist_scope(display)),
        ) && after.session_rules == before.session_rules,
        Err(m) => (r matches Err(e) && is_rejection(e, tool, m@) && after == before),
    }
    &&& decision == ApprovalDecision::Deny ==> (r matches Err(e) && is_rejection(
        e,
        tool,
        "approval denied"@,
    ) && after == before)
}

impl ApprovalRules {
    /// Start approving a call of `tool_name` with `input` in `session_id`:
    /// when a session or always-allow rule covers its scope it runs at once;
    /// otherwise `request_id` is registered as pending for the session and
    /// the prompt to send is returned.
    pub fn begin_approval(
        &mut self,
        session_id: u128,
        tool_name: &str,
        input: &Json,
        request_id: &str,
    ) -> (r: ApprovalStep)
        ensures
            spec_is_allowed(old(self)@, session_id, tool_name@, spec_approval_display(tool_name@, input@))
                ==> r is Allowed && final(self)@ == old(self)@,
            !spec_is_allowed(old(self)@, session_id, tool_name@, spec_approval_display(tool_name@, input@))
                ==> (r matches ApprovalStep::Ask(req) && is_approval_request(
                req,
                request_id@,
                tool_name@,
                spec_scope_label(tool_name@, spec_approval_display(tool_name@, input@)),
            )) && final(self)@.pending == without(old(self)@.pending, request_id@).push(
                (request_id@, session_id),
            ) && final(self)@.session_rules == old(self)@.session_rules
                && final(self)@.always_allowed == old(self)@.always_allowed,
    {
        let display = approval_display(tool_name, input);
        if self.is_allowed(session_id, tool_name, display.as_str()) {
            return ApprovalStep::Allowed;
        }
        self.register_pending(request_id, session_id);
        let label = scope_label(tool_name, display.as_str());
        ApprovalStep::Ask(approval_request(request_id, tool_name, label.as_str()))
    }

    /// Settle a prompt sent by `begin_approval`. An undelivered or unanswered
    /// prompt is withdrawn and the call rejected; an answer is decided against
    /// `request_id` and applied (see `apply_decision`). `persisted` is the
    /// host's answer to saving an always-allow rule, consulted only when the
    /// answer is "always allow".
    pub fn finish_approval(
        &mut self,
        event: ApprovalEvent,
        request_id: &str,
        session_id: u128,
        tool_name: &str,
        input: &Json,
        persisted: Result<(), String>,
    ) -> (r: Result<(), ToolError>)
        ensures
            event is NotDelivered ==> (r matches Err(e) && is_rejection(
                e,
                tool_name@,
                "no interactive client available"@,
            )) && final(self)@.pending == without(old(self)@.pending, request_id@)
                && final(self)@.session_rules == old(self)@.session_rules
                && final(self)@.always_allowed == old(self)@.always_allowed,
            event is TimedOut ==> (r matches Err(e) && is_rejection(
                e,
                tool_name@,
                "approval timed out"@,
            )) && final(self)@.pending == without(old(self)@.pending, request_id@)
                && final(self)@.session_rules == old(self)@.session_rules
                && final(self)@.always_allowed == old(self)@.always_allowed,
            event matches ApprovalEvent::Answered(resp) ==> spec_applied(
                old(self)@,
                final(self)@,
                r,
                spec_decide(request_id@, resp),
                session_id,
                tool_name@,
                spec_approval_display(tool_name@, input@),
                persisted,
            ),
    {
        match event {
            ApprovalEvent::NotDelivered => {
                self.remove_pending(request_id);
                Err(rejected(tool_name, "no interactive client available"))
            },
            ApprovalEvent::TimedOut => {
                self.remove_pending(request_id);
                Err(rejected(tool_name, "approval timed out"))
            },
            ApprovalEvent::Answered(resp) => {
                let decision = decide(request_id, &resp);
                let display = approval_display(tool_name, input);
                self.apply_decision(decision, session_id, tool_name, display.as_str(), persisted)
            },
        }
    }
}

/// The value of the state after a session grant.
pub open spec fn after_session_grant(
    s: ApprovalRulesV,
    session: u128,
    tool: Seq<char>,
    scope: Seq<char>,
) -> ApprovalRulesV {
    ApprovalRulesV { session_rules: s.session_rules.insert((session, tool, scope)), ..s }
}

/// The value of the state after an always-allow grant.
pub open spec fn after_always_grant(
    s: ApprovalRulesV,
    tool: Seq<char>,
    scope: Option<Seq<char>>,
) -> ApprovalRulesV {
    ApprovalRulesV { always_allowed: s.always_allowed.insert((tool, scope)), ..s }
}

/// "Allow this session" lets the same call through from then on in that
/// session, and leaves every other session exactly as it was.
pub proof fn lemma_session_grant(
    s: ApprovalRulesV,
    session: u128,
    tool: Seq<char>,
    scope: Seq<char>,
    other: u128,
    tool2: Seq<char>,
    scope2: Seq<char>,
)
    requires
        other != session,
    ensures
        spec_is_allowed(after_session_grant(s, session, tool, scope), session, tool, scope),
        spec_is_allowed(after_session_grant(s, session, tool, scope), other, tool2, scope2)
            == spec_is_allowed(s, other, tool2, scope2),
{
}

/// "Always allow" on a call without a scope covers every call of the tool in
/// every session; with a scope it covers that scope in every session.
pub proof fn lemma_always_grant(
    s: ApprovalRulesV,
    tool: Seq<char>,
    display: Seq<char>,
    session: u128,
    any_scope: Seq<char>,
)
    ensures
        spec_is_allowed(
            after_always_grant(s, tool, persist_scope(display)),
            session,
            tool,
            display,
        ),
        display.len() == 0 ==> spec_is_allowed(
            after_always_grant(s, tool, persist_scope(display)),
            session,
            tool,
            any_scope,
        ),
{
}

/// Granting never withdraws an existing permission.
pub proof fn lemma_grants_are_monotone(
    s: ApprovalRulesV,
    session: u128,
    tool: Seq<char>,
    scope: Option<Seq<char>>,
    s2: u128,
    t2: Seq<char>,
    sc2: Seq<char>,
)
    requires
        spec_is_allowed(s, s2, t2, sc2),
    ensures
        spec_is_allowed(after_always_grant(s, tool, scope), s2, t2, sc2),
        scope matches Some(sc) ==> spec_is_allowed(after_session_grant(s, session, tool, sc), s2, t2, sc2),
{
}

} // verus!

//! Engine errors and their user-facing classification.

use vstd::prelude::*;

use crate::text::{chars_of, contains, contains_chars, decimal, extend_str, push_decimal, string_of};

verus! {

/// All errors the engine can produce.
///
/// Errors that come from outside crates (the HTTP client, JSON codec) are
/// carried as their rendered message: nothing in the engine reads more of them.
#[derive(Debug, Clone)]
pub enum EngineError {
    /// No `OPENCODE_GO_API_KEY` was provided.
    MissingApiKey,
    /// A native provider's API key was not found; carries the variable name.
    MissingNativeApiKey(String),
    /// The HTTP request upstream failed.
    Upstream(String),
    /// The provider returned a non-2xx response.
    UpstreamStatus { status: u16, body: String },
    /// A tool emitted a structured error.
    Tool { tool: String, message: String },
    /// The stream was aborted by the user.
    Aborted,
    /// The provider rejected the request due to context length overflow.
    ContextOverflow(String),
    /// JSON (de)serialisation failed.
    Serde(String),
    /// Catch-all.
    Other(String),
}

/// Wire-level error classification streamed to clients.
#[derive(Debug, Clone, Copy, PartialEq, Eq, Structural)]
pub enum ErrorCode {
    MissingApiKey,
    Upstream,
    ToolFailed,
    Internal,
    ContextOverflow,
}

/// Result of `str::to_lowercase` (Unicode lowercase mapping).
pub uninterp spec fn lowercase(s: Seq<char>) -> Seq<char>;

/// Calls `str::to_lowercase`; its result is the Unicode lowercase mapping of `s`.
#[verifier::external_body]
fn to_lowercase(s: &str) -> (r: String)
    ensures
        r@ == lowercase(s@),
{
    s.to_lowercase()
}

/// The provider phrasings that signal a context-length overflow.
pub open spec fn overflow_phrase(m: Seq<char>) -> bool {
    ||| contains(m, "context_length"@)
    ||| contains(m, "maximum context length"@)
    ||| contains(m, "too many tokens"@)
    ||| contains(m, "max_tokens"@)
    ||| contains(m, "prompt is too long"@)
    ||| contains(m, "context length exceeded"@)
}

/// Whether a provider message, lowercased, names a context overflow.
pub open spec fn spec_contains_context_overflow(msg: Seq<char>) -> bool {
    overflow_phrase(lowercase(msg))
}

/// Whether `msg`, lowercased, contains one of the overflow phrasings.
pub fn contains_context_overflow(msg: &str) -> (r: bool)
    ensures
        r == spec_contains_context_overflow(msg@),
{
    let lower = to_lowercase(msg);
    let l = chars_of(lower.as_str());
    contains_chars(&l, &chars_of("context_length")) || contains_chars(
        &l,
        &chars_of("maximum context length"),
    ) || contains_chars(&l, &chars_of("too many tokens")) || contains_chars(
        &l,
        &chars_of("max_tokens"),
    ) || contains_chars(&l, &chars_of("prompt is too long")) || contains_chars(
        &l,
        &chars_of("context length exceeded"),
    )
}

impl EngineError {
    /// Whether this error is a provider context-overflow rejection.
    pub open spec fn spec_is_context_overflow(&self) -> bool {
        match self {
            EngineError::ContextOverflow(_) => true,
            EngineError::UpstreamStatus { status, body } => (*status == 400 || *status == 413)
                && spec_contains_context_overflow(body@),
            EngineError::Other(msg) => spec_contains_context_overflow(msg@),
            _ => false,
        }
    }

    /// Check if this error represents a context overflow from the provider.
    pub fn is_context_overflow(&self) -> (r: bool)
        ensures
            r == self.spec_is_context_overflow(),
    {
        match self {
            EngineError::ContextOverflow(_) => true,
            EngineError::UpstreamStatus { status, body } => (*status == 400 || *status == 413)
                && contains_context_overflow(body.as_str()),
            EngineError::Other(msg) => contains_context_overflow(msg.as_str()),
            _ => false,
        }
    }
}

/// The message an error displays.
pub open spec fn spec_error_message(error: EngineError) -> Seq<char> {
    match error {
        EngineError::MissingApiKey => "OPENCODE_GO_API_KEY is not set"@,
        EngineError::MissingNativeApiKey(name) => name@ + " is not set"@,
        EngineError::Upstream(m) => "upstream error: "@ + m@,
        EngineError::UpstreamStatus { status, body } => "upstream returned "@ + decimal(
            status as nat,
        ) + ": "@ + body@,
        EngineError::Tool { tool, message } => "tool error in "@ + tool@ + ": "@ + message@,
        EngineError::Aborted => "aborted"@,
        EngineError::ContextOverflow(m) => "context overflow: "@ + m@,
        EngineError::Serde(m) => "serialization error: "@ + m@,
        EngineError::Other(m) => m@,
    }
}

impl EngineError {
    /// The message this error displays.
    pub fn message(&self) -> (r: String)
        ensures
            r@ == spec_error_message(*self),
    {
        let mut out: Vec<char> = Vec::new();
        match self {
            EngineError::MissingApiKey => extend_str(&mut out, "OPENCODE_GO_API_KEY is not set"),
            EngineError::MissingNativeApiKey(name) => {
                extend_str(&mut out, name.as_str());
                extend_str(&mut out, " is not set");
            },
            EngineError::Upstream(m) => {
                extend_str(&mut out, "upstream error: ");
                extend_str(&mut out, m.as_str());
            },
            EngineError::UpstreamStatus { status, body } => {
                extend_str(&mut out, "upstream returned ");
                push_decimal(&mut out, *status as u64);
                extend_str(&mut out, ": ");
                extend_str(&mut out, body.as_str());
            },
            EngineError::Tool { tool, message } => {
                extend_str(&mut out, "tool error in ");
                extend_str(&mut out, tool.as_str());
                extend_str(&mut out, ": ");
                extend_str(&mut out, message.as_str());
            },
            EngineError::Aborted => extend_str(&mut out, "aborted"),
            EngineError::ContextOverflow(m) => {
                extend_str(&mut out, "context overflow: ");
                extend_str(&mut out, m.as_str());
            },
            EngineError::Serde(m) => {
                extend_str(&mut out, "serialization error: ");
                extend_str(&mut out, m.as_str());
            },
            EngineError::Other(m) => extend_str(&mut out, m.as_str()),
        }
        proof {
            assert(Seq::<char>::empty() + spec_error_message(*self) =~= spec_error_message(*self));
        }
        string_of(&out)
    }
}

/// HTTP statuses that commonly indicate a transient upstream fault.
pub open spec fn spec_retryable_status(status: u16) -> bool {
    status == 408 || status == 409 || status == 425 || status == 429 || status == 500 || status
        == 502 || status == 503 || status == 504 || status == 529
}

/// True for HTTP statuses that commonly indicate a transient upstream fault
/// worth retrying unchanged.
pub fn retryable_status(status: u16) -> (r: bool)
    ensures
        r == spec_retryable_status(status),
{
    status == 408 || status == 409 || status == 425 || status == 429 || status == 500 || status
        == 502 || status == 503 || status == 504 || status == 529
}

/// The streamed `(code, message, retryable)` triple for an engine error.
pub open spec fn spec_error_parts(error: EngineError) -> (ErrorCode, Seq<char>, bool) {
    match error {
        EngineError::MissingApiKey => (
            ErrorCode::MissingApiKey,
            "no OpenCode Go API key is configured"@,
            false,
        ),
        EngineError::MissingNativeApiKey(name) => (
            ErrorCode::MissingApiKey,
            name@ + " is not set"@,
            false,
        ),
        EngineError::Upstream(_) => (ErrorCode::Upstream, "upstream provider error"@, true),
        EngineError::UpstreamStatus { status, .. } => (
            ErrorCode::Upstream,
            "provider returned HTTP "@ + decimal(status as nat),
            spec_retryable_status(status),
        ),
        EngineError::Tool { tool, .. } => (
            ErrorCode::ToolFailed,
            "tool `"@ + tool@ + "` failed"@,
            false,
        ),
        EngineError::Aborted => (ErrorCode::Internal, "internal error"@, false),
        EngineError::ContextOverflow(_) => (
            ErrorCode::ContextOverflow,
            "model context limit reached"@,
            false,
        ),
        EngineError::Serde(_) | EngineError::Other(_) => (
            ErrorCode::Internal,
            "internal error"@,
            false,
        ),
    }
}

/// Split an engine error into its streamed error fields: a code, a sanitised
/// user-actionable message, and whether retrying unchanged may succeed.
pub fn engine_error_parts(error: &EngineError) -> (r: (ErrorCode, String, bool))
    ensures
        (r.0, r.1@, r.2) == spec_error_parts(*error),
{
    match error {
        EngineError::MissingApiKey => (
            ErrorCode::MissingApiKey,
            string_of(&chars_of("no OpenCode Go API key is configured")),
            false,
        ),
        EngineError::MissingNativeApiKey(name) => {
            let mut m = chars_of(name.as_str());
            extend_str(&mut m, " is not set");
            (ErrorCode::MissingApiKey, string_of(&m), false)
        },
        EngineError::Upstream(_) => (
            ErrorCode::Upstream,
            string_of(&chars_of("upstream provider error")),
            true,
        ),
        EngineError::UpstreamStatus { status, .. } => {
            let mut m = chars_of("provider returned HTTP ");
            push_decimal(&mut m, *status as u64);
            (ErrorCode::Upstream, string_of(&m), retryable_status(*status))
        },
        EngineError::Tool { tool, .. } => {
            let mut m = chars_of("tool `");
            extend_str(&mut m, tool.as_str());
            extend_str(&mut m, "` failed");
            (ErrorCode::ToolFailed, string_of(&m), false)
        },
        EngineError::Aborted => (ErrorCode::Internal, string_of(&chars_of("internal error")), false),
        EngineError::ContextOverflow(_) => (
            ErrorCode::ContextOverflow,
            string_of(&chars_of("model context limit reached")),
            false,
        ),
        EngineError::Serde(_) | EngineError::Other(_) => (
            ErrorCode::Internal,
            string_of(&chars_of("internal error")),
            false,
        ),
    }
}

} // verus!

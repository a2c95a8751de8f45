//! Structured tool errors returned to the model.

use vstd::prelude::*;

verus! {

/// A structured tool failure, with an optional hint for the model.
#[derive(Debug)]
pub enum ToolError {
    /// The input did not match the tool's schema.
    InvalidInput { message: String, hint: Option<String> },
    /// The call was refused by policy or by the user.
    Rejected { message: String, hint: Option<String> },
    /// No tool with this name is registered.
    ToolNotFound(String),
    /// Any other failure.
    Other { message: String, hint: Option<String> },
}

} // verus!

//! Tool policy: Plan-mode restrictions, approval rules, the todo list tool.

pub mod approval;
pub mod error;
pub mod policy;
pub mod registry;
pub mod todo;

pub use approval::ApprovalRules;
pub use error::ToolError;
pub use policy::is_plan_read_only_command;

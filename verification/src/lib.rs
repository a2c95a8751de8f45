//! Verified core of the mewcode agent engine and its terminal client.

pub mod agent;
pub mod compaction;
pub mod context;
pub mod credential;
pub mod error;
pub mod harness;
pub mod json;
pub mod mcp;
pub mod message;
pub mod migration;
pub mod skills;
pub mod text;
pub mod tools;
pub mod view;
pub mod wc;

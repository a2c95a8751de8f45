//! Model context sources kept outside the transcript: durable memory and the
//! per-session todo list.

pub mod memory;
pub mod todos;

pub use memory::MemoryStore;
pub use todos::{TodoStore, MAX_TODOS};

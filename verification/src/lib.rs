//! Capture of input events into a task-keyed journal: the canonical event
//! schema, the tracking gate, the task context and the document they fill.

pub mod document;
pub mod event;
pub mod laws;
pub mod record;
pub mod session;
pub mod store;

//! Orchestration logic for downloads performed by an external fetch tool:
//! metadata records, progress lines, the session state machine and cleanup.

pub mod text;
pub mod metadata;
pub mod progress;
pub mod cleanup;
pub mod session;
pub mod command;

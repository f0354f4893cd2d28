//! Orchestration of repeated agent runs with a pinned, live terminal view of
//! the running task's output.

pub mod ansi;
pub mod forward;
pub mod geometry;
pub mod header;
pub mod launch;
pub mod orchestrate;
pub mod prompts;
pub mod render;
pub mod report;
pub mod scroll;
pub mod strings;
pub mod text;

pub use crate::orchestrate::orchestrate;
pub use crate::text::{truncate_display, MAX_CURRENT_TASK_LEN, MAX_DISPLAY_LEN};

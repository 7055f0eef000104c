//! The view that pops up over the transcript.
pub mod handler;
pub mod key_shortcuts;
pub mod reader_logs;
pub mod session_info;
pub mod state;
pub mod ui;

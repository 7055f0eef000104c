//! The list of sessions to choose from.
pub mod handler;
pub mod laws;
pub mod state;
pub mod ui;

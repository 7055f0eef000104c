//! Transcript model and decision logic of an agent-session viewer.
#![allow(unused_imports)]

pub mod app;
pub mod args;
pub mod claude;
pub mod claude_hooks;
pub mod clipboard;
pub mod clock;
pub mod cmd_parse;
pub mod color;
pub mod config;
pub mod contents_laws;
pub mod cursor;
pub mod cursor_hooks;
pub mod data_view;
pub mod event;
pub mod geometry;
pub mod index;
pub mod json;
pub mod json_laws;
pub mod key;
pub mod log_buffer;
pub mod number;
pub mod order;
pub mod paths;
pub mod picker;
pub mod plugin_install;
pub mod providers;
pub mod session_socket;
pub mod setup_laws;
pub mod shown_laws;
pub mod status_bar;
pub mod text;
pub mod text_laws;
pub mod tree;
pub mod watch;

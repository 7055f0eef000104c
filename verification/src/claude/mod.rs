//! Transcripts that are files of one JSON entry per line.
pub mod arrival;
pub mod jsonl;
pub mod laws;
pub mod lines;
pub mod message;
pub mod path;
pub mod provider;
pub mod reader;
pub mod reading_laws;
pub mod subagent;
pub mod xml;

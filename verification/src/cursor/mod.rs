//! Sessions that are databases of message blobs.
pub mod hex;
pub mod laws;
pub mod message;
pub mod message_laws;
pub mod notification;
pub mod proto;
pub mod provider;
pub mod reader;
pub mod session_laws;
pub mod timestamp;

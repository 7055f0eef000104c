//! The list of known sessions and its refreshing.
pub mod laws;
pub mod refresh;
pub mod row;

//! The application: screens, modes, and what events do.
pub mod draw;
pub mod effect;
pub mod keys;
pub mod laws;
pub mod mode;
pub mod mouse;
pub mod session;
pub mod state;

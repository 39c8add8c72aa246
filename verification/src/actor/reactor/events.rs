//! What is done on each event.
pub mod command;
pub mod drag;
pub mod laws;
pub mod window;

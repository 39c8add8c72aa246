//! The actors of the window manager.
pub mod reactor;

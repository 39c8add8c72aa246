//! Virtual workspaces for a tiling window manager.
pub mod actor;
pub mod common;
pub mod layout_engine;
pub mod model;
pub mod ui;

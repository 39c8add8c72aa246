//! Identifiers, geometry and the workspace model.
pub mod app_rules;
pub mod geometry;
pub mod ids;
pub mod laws;
pub mod manager_model;
pub mod request_laws;
pub mod rule_laws;
pub mod server;
pub mod slots;
pub mod text_laws;
pub mod virtual_workspace;
pub mod workspace;

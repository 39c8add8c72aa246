//! What is drawn on the screen.
pub mod overlay_laws;
pub mod workspace_overlay;

//! What is told to those who ask about workspaces, windows and applications.
use vstd::prelude::*;
use crate::common::text::copied;
use crate::model::geometry::Frame;
use crate::model::ids::{pid_t, WindowId};

verus! {

/// The answer to a question about workspaces.
#[derive(Debug)]
pub struct WorkspaceQueryResponse {
    pub workspaces: Vec<WorkspaceData>,
}

/// A workspace as it is told.
#[derive(Debug)]
pub struct WorkspaceData {
    pub id: String,
    /// Its position when the workspaces of all displays are counted through.
    pub index: usize,
    pub name: String,
    pub display: usize,
    pub is_active: bool,
    pub window_count: usize,
    pub windows: Vec<WindowData>,
}

/// A window as it is told.
#[derive(Debug)]
pub struct WindowData {
    pub id: WindowId,
    pub title: String,
    pub frame: Frame,
    pub is_floating: bool,
    pub is_focused: bool,
    pub bundle_id: Option<String>,
    pub window_server_id: Option<u32>,
}

impl Clone for WindowData {
    fn clone(&self) -> (r: Self)
        ensures
            r == *self,
    {
        WindowData {
            id: self.id,
            title: self.title.clone(),
            frame: self.frame,
            is_floating: self.is_floating,
            is_focused: self.is_focused,
            bundle_id: copied(&self.bundle_id),
            window_server_id: self.window_server_id,
        }
    }
}

/// An application as it is told.
#[derive(Debug)]
pub struct ApplicationData {
    pub pid: pid_t,
    pub bundle_id: Option<String>,
    pub name: String,
    pub is_frontmost: bool,
    pub window_count: usize,
}

/// The layout of a space as it is told.
#[derive(Debug)]
pub struct LayoutStateData {
    pub space_id: u64,
    pub mode: String,
    pub floating_windows: Vec<WindowId>,
    pub tiled_windows: Vec<WindowId>,
    pub focused_window: Option<WindowId>,
}

} // verus!

//! Settings that the workspace model reads.
use vstd::prelude::*;
use crate::common::text::copied;
use crate::model::ids::DisplayId;

verus! {

/// How a rule names the workspace it sends a window to.
#[derive(Debug, PartialEq, Eq)]
pub enum WorkspaceSelector {
    Index(usize),
    Name(String),
}

impl Clone for WorkspaceSelector {
    fn clone(&self) -> (r: Self)
        ensures
            r == *self,
    {
        match self {
            WorkspaceSelector::Index(i) => WorkspaceSelector::Index(*i),
            WorkspaceSelector::Name(n) => WorkspaceSelector::Name(n.clone()),
        }
    }
}

/// A rule that says what becomes of the windows of an application. A window meets the rule when
/// it meets every condition that the rule states.
#[derive(Debug, PartialEq, Eq)]
pub struct AppWorkspaceRule {
    pub app_id: Option<String>,
    pub workspace: Option<WorkspaceSelector>,
    pub floating: bool,
    pub app_name: Option<String>,
    pub title_regex: Option<String>,
    pub title_substring: Option<String>,
    pub ax_role: Option<String>,
    pub ax_subrole: Option<String>,
}

impl Clone for AppWorkspaceRule {
    fn clone(&self) -> (r: Self)
        ensures
            r == *self,
    {
        AppWorkspaceRule {
            app_id: copied(&self.app_id),
            workspace: match &self.workspace {
                Some(w) => Some(w.clone()),
                None => None,
            },
            floating: self.floating,
            app_name: copied(&self.app_name),
            title_regex: copied(&self.title_regex),
            title_substring: copied(&self.title_substring),
            ax_role: copied(&self.ax_role),
            ax_subrole: copied(&self.ax_subrole),
        }
    }
}

/// A workspace to create, on one display or on all of them.
#[derive(Debug, PartialEq, Eq)]
pub struct WorkspaceDefinition {
    pub name: String,
    pub display: Option<DisplayId>,
}

impl Clone for WorkspaceDefinition {
    fn clone(&self) -> (r: Self)
        ensures
            r == *self,
    {
        WorkspaceDefinition { name: self.name.clone(), display: self.display }
    }
}

/// The settings of the virtual workspaces.
#[derive(Debug)]
pub struct VirtualWorkspaceSettings {
    pub default_workspace_count: usize,
    pub workspace_auto_back_and_forth: bool,
    pub workspace_names: Vec<String>,
    pub app_rules: Vec<AppWorkspaceRule>,
    pub workspaces: Vec<WorkspaceDefinition>,
}

pub const DEFAULT_WORKSPACE_COUNT: usize = 4;

impl Default for VirtualWorkspaceSettings {
    fn default() -> (r: Self)
        ensures
            r.default_workspace_count == DEFAULT_WORKSPACE_COUNT,
            !r.workspace_auto_back_and_forth,
            r.workspace_names@.len() == 0,
            r.app_rules@.len() == 0,
            r.workspaces@.len() == 0,
    {
        VirtualWorkspaceSettings {
            default_workspace_count: DEFAULT_WORKSPACE_COUNT,
            workspace_auto_back_and_forth: false,
            workspace_names: Vec::new(),
            app_rules: Vec::new(),
            workspaces: Vec::new(),
        }
    }
}

} // verus!

//! One virtual workspace, and the positions of the floating windows of one.
use vstd::prelude::*;
use crate::common::collections::{VecMap, VecSet};
use crate::model::geometry::Frame;
use crate::model::ids::{pid_t, DisplayId, SpaceId, VirtualWorkspaceId, WindowId};

verus! {

/// Why a request about workspaces was refused.
#[derive(Debug, Clone, PartialEq, Eq)]
pub enum WorkspaceError {
    NoWorkspacesAvailable,
    AssignmentFailed,
    InvalidWorkspaceId(VirtualWorkspaceId),
    InvalidWorkspaceIndex(usize),
    InconsistentState(String),
}

/// A named group of windows on one display.
#[derive(Debug)]
pub struct VirtualWorkspace {
    pub name: String,
    pub display: DisplayId,
    /// The space that the display showed when it was last seen.
    pub space: Option<SpaceId>,
    windows: VecSet<WindowId>,
    last_focused: Option<WindowId>,
}

/// What a workspace holds.
#[verifier::ext_equal]
pub struct WorkspaceModel {
    pub name: Seq<char>,
    pub display: DisplayId,
    pub space: Option<SpaceId>,
    pub windows: Set<WindowId>,
    pub last_focused: Option<WindowId>,
}

impl WorkspaceModel {
    /// An empty workspace.
    pub open spec fn fresh(name: Seq<char>, display: DisplayId) -> Self {
        WorkspaceModel {
            name,
            display,
            space: None,
            windows: Set::empty(),
            last_focused: None,
        }
    }

    /// The workspace once the windows in `gone` have left it: none of them keeps the focus.
    pub open spec fn without(self, gone: Set<WindowId>) -> Self {
        WorkspaceModel {
            windows: self.windows.difference(gone),
            last_focused: match self.last_focused {
                Some(w) if gone.contains(w) => None,
                other => other,
            },
            ..self
        }
    }

    pub open spec fn with(self, window: WindowId) -> Self {
        WorkspaceModel { windows: self.windows.insert(window), ..self }
    }
}

impl View for VirtualWorkspace {
    type V = WorkspaceModel;

    closed spec fn view(&self) -> WorkspaceModel {
        WorkspaceModel {
            name: self.name@,
            display: self.display,
            space: self.space,
            windows: self.windows@,
            last_focused: self.last_focused,
        }
    }
}

impl Clone for VirtualWorkspace {
    fn clone(&self) -> (r: Self)
        ensures
            r@ == self@,
    {
        VirtualWorkspace {
            name: self.name.clone(),
            display: self.display,
            space: self.space,
            windows: self.windows.clone(),
            last_focused: self.last_focused,
        }
    }
}

impl VirtualWorkspace {
    pub fn new(name: String, display: DisplayId) -> (r: Self)
        ensures
            r@ == WorkspaceModel::fresh(name@, display),
    {
        VirtualWorkspace { name, display, space: None, windows: VecSet::new(), last_focused: None }
    }

    pub fn contains_window(&self, window_id: WindowId) -> (r: bool)
        ensures
            r == self@.windows.contains(window_id),
    {
        self.windows.contains(&window_id)
    }

    /// The windows of the workspace, each once.
    pub fn windows(&self) -> (r: Vec<WindowId>)
        ensures
            r@.no_duplicates(),
            r@.to_set() == self@.windows,
    {
        self.windows.to_vec()
    }

    pub fn is_empty(&self) -> (r: bool)
        ensures
            r == (self@.windows == Set::<WindowId>::empty()),
    {
        self.windows.is_empty()
    }

    pub fn add_window(&mut self, window_id: WindowId)
        ensures
            final(self)@ == old(self)@.with(window_id),
    {
        self.windows.insert(window_id);
    }

    /// Takes a window out; true when it was there.
    pub fn remove_window(&mut self, window_id: WindowId) -> (r: bool)
        ensures
            final(self)@ == old(self)@.without(set![window_id]),
            r == old(self)@.windows.contains(window_id),
    {
        if self.last_focused == Some(window_id) {
            self.last_focused = None;
        }
        let r = self.windows.remove(&window_id);
        assert(old(self)@.windows.difference(set![window_id]) =~= old(self)@.windows.remove(window_id));
        r
    }

    pub fn set_last_focused(&mut self, window_id: Option<WindowId>)
        ensures
            final(self)@ == (WorkspaceModel { last_focused: window_id, ..old(self)@ }),
    {
        self.last_focused = window_id;
    }

    pub fn last_focused(&self) -> (r: Option<WindowId>)
        ensures
            r == self@.last_focused,
    {
        self.last_focused
    }

    pub fn window_count(&self) -> (r: usize)
        ensures
            self@.windows.finite(),
            r == self@.windows.len(),
    {
        self.windows.len()
    }

    pub fn rename(&mut self, name: String)
        ensures
            final(self)@ == (WorkspaceModel { name: name@, ..old(self)@ }),
    {
        self.name = name;
    }

    pub fn set_space(&mut self, space: SpaceId)
        ensures
            final(self)@ == (WorkspaceModel { space: Some(space), ..old(self)@ }),
    {
        self.space = Some(space);
    }

    pub(crate) fn forget_space(&mut self)
        ensures
            final(self)@ == (WorkspaceModel { space: None, ..old(self)@ }),
    {
        self.space = None;
    }

    pub fn display(&self) -> (r: DisplayId)
        ensures
            r == self@.display,
    {
        self.display
    }

    pub fn name(&self) -> (r: String)
        ensures
            r@ == self@.name,
    {
        self.name.clone()
    }
}

/// Where the floating windows of a workspace were last seen.
#[derive(Debug)]
pub struct FloatingWindowPositions {
    positions: VecMap<WindowId, Frame>,
}

impl View for FloatingWindowPositions {
    type V = Map<WindowId, Frame>;

    closed spec fn view(&self) -> Map<WindowId, Frame> {
        self.positions@
    }
}

impl Default for FloatingWindowPositions {
    fn default() -> (r: Self)
        ensures
            r@ == Map::<WindowId, Frame>::empty(),
    {
        FloatingWindowPositions { positions: VecMap::new() }
    }
}

impl Clone for FloatingWindowPositions {
    fn clone(&self) -> (r: Self)
        ensures
            r@ == self@,
    {
        FloatingWindowPositions { positions: self.positions.clone() }
    }
}

impl FloatingWindowPositions {
    pub fn store_position(&mut self, window_id: WindowId, position: Frame)
        ensures
            final(self)@ == old(self)@.insert(window_id, position),
    {
        self.positions.insert(window_id, position);
    }

    pub fn get_position(&self, window_id: WindowId) -> (r: Option<Frame>)
        ensures
            r == self@.get(window_id),
    {
        match self.positions.get(&window_id) {
            Some(p) => Some(*p),
            None => None,
        }
    }

    pub fn remove_position(&mut self, window_id: WindowId) -> (r: Option<Frame>)
        ensures
            final(self)@ == old(self)@.remove(window_id),
            r == old(self)@.get(window_id),
    {
        self.positions.remove(&window_id)
    }

    /// The windows that have a position, each once.
    pub fn windows(&self) -> (r: Vec<WindowId>)
        ensures
            r@.no_duplicates(),
            r@.to_set() == self@.dom(),
    {
        let r = self.positions.keys();
        assert(r@.to_set() =~= self@.dom());
        r
    }

    pub fn clear(&mut self)
        ensures
            final(self)@ == Map::<WindowId, Frame>::empty(),
    {
        self.positions.clear();
    }

    pub fn contains_window(&self, window_id: WindowId) -> (r: bool)
        ensures
            r == self@.contains_key(window_id),
    {
        self.positions.contains_key(&window_id)
    }

    /// Forgets the windows of a process.
    pub fn remove_app_windows(&mut self, pid: pid_t)
        ensures
            final(self)@ == old(self)@.filter_keys(|w: WindowId| w.pid != pid),
    {
        let keys = self.positions.keys();
        let mut i: usize = 0;
        while i < keys.len()
            invariant
                i <= keys@.len(),
                forall|k: WindowId| #[trigger] keys@.contains(k) <==> old(self)@.contains_key(k),
                self@ == old(self)@.filter_keys(
                    |w: WindowId| !(w.pid == pid && keys@.take(i as int).contains(w)),
                ),
            decreases keys@.len() - i,
        {
            let ghost before = self@;
            if keys[i].pid == pid {
                self.positions.remove(&keys[i]);
            }
            proof {
                crate::common::sequences::lemma_take_step(keys@, i as int);
                assert(self@ =~= old(self)@.filter_keys(
                    |w: WindowId| !(w.pid == pid && keys@.take(i + 1).contains(w)),
                ));
            }
            i += 1;
        }
        assert(keys@.take(keys@.len() as int) =~= keys@);
        assert(self@ =~= old(self)@.filter_keys(|w: WindowId| w.pid != pid));
    }
}

/// Figures about the workspaces of all displays.
#[derive(Debug)]
pub struct WorkspaceStats {
    pub total_workspaces: usize,
    pub total_windows: usize,
    pub active_spaces: usize,
    pub workspace_window_counts: VecMap<VirtualWorkspaceId, usize>,
}

impl Clone for WorkspaceStats {
    fn clone(&self) -> (r: Self)
        ensures
            r.total_workspaces == self.total_workspaces,
            r.total_windows == self.total_windows,
            r.active_spaces == self.active_spaces,
            r.workspace_window_counts@ == self.workspace_window_counts@,
    {
        WorkspaceStats {
            total_workspaces: self.total_workspaces,
            total_windows: self.total_windows,
            active_spaces: self.active_spaces,
            workspace_window_counts: self.workspace_window_counts.clone(),
        }
    }
}

} // verus!

//! What the reactor knows of the layout: the workspaces, the floating windows and those that were
//! moved off the screen.
use vstd::prelude::*;
use crate::common::collections::{VecMap, VecSet};
use crate::model::geometry::Frame;
use crate::model::ids::{DisplayId, SpaceId, VirtualWorkspaceId, WindowId};
use crate::model::manager_model::ManagerModel;
use crate::model::virtual_workspace::VirtualWorkspaceManager;

verus! {

/// A request to change the layout.
#[derive(Debug)]
pub enum LayoutCommand {
    /// Steps to the next workspace; the flag says whether empty ones are skipped.
    NextWorkspace(Option<bool>),
    /// Steps to the previous workspace; the flag says whether empty ones are skipped.
    PrevWorkspace(Option<bool>),
    SwitchToWorkspace(usize),
    MoveWindowToWorkspace(usize),
    CreateWorkspace,
    SwitchToLastWorkspace,
    SwapWindows(WindowId, WindowId),
    /// A command for the layout within a workspace, by its name.
    Within(String),
}

impl LayoutCommand {
    /// The command has a display show another workspace.
    pub open spec fn switches_workspace(self) -> bool {
        self is NextWorkspace || self is PrevWorkspace || self is SwitchToWorkspace
            || self is SwitchToLastWorkspace
    }

    /// The command is about workspaces rather than about the layout within one.
    pub open spec fn is_about_workspaces(self) -> bool {
        self.switches_workspace() || self is MoveWindowToWorkspace || self is CreateWorkspace
    }

    pub fn is_workspace_switch(&self) -> (r: bool)
        ensures
            r == self.switches_workspace(),
    {
        match self {
            LayoutCommand::NextWorkspace(_)
            | LayoutCommand::PrevWorkspace(_)
            | LayoutCommand::SwitchToWorkspace(_)
            | LayoutCommand::SwitchToLastWorkspace => true,
            _ => false,
        }
    }

    pub fn is_window_workspace_change(&self) -> (r: bool)
        ensures
            r == (self is MoveWindowToWorkspace),
    {
        match self {
            LayoutCommand::MoveWindowToWorkspace(_) => true,
            _ => false,
        }
    }

    pub fn is_workspace_command(&self) -> (r: bool)
        ensures
            r == self.is_about_workspaces(),
    {
        match self {
            LayoutCommand::NextWorkspace(_)
            | LayoutCommand::PrevWorkspace(_)
            | LayoutCommand::SwitchToWorkspace(_)
            | LayoutCommand::MoveWindowToWorkspace(_)
            | LayoutCommand::CreateWorkspace
            | LayoutCommand::SwitchToLastWorkspace => true,
            _ => false,
        }
    }
}

/// What the layout is told of a window.
#[derive(Debug)]
pub enum LayoutEvent {
    WindowAdded(SpaceId, WindowId),
    WindowRemoved(WindowId),
    WindowFocused(SpaceId, WindowId),
    WindowResized {
        wid: WindowId,
        old_frame: Frame,
        new_frame: Frame,
        screens: Vec<(SpaceId, Frame)>,
    },
}

/// The workspaces and the windows that are not tiled.
pub struct LayoutEngine {
    workspaces: VirtualWorkspaceManager,
    floating: VecSet<WindowId>,
    offscreen: VecMap<WindowId, DisplayId>,
    pub positioned_windows_this_cycle: VecSet<WindowId>,
}

/// What the layout engine holds.
#[verifier::ext_equal]
pub struct EngineModel {
    pub workspaces: ManagerModel,
    pub floating: Set<WindowId>,
    /// The windows that were moved off the screen of a display.
    pub offscreen: Map<WindowId, DisplayId>,
    /// The windows that the layout in progress has placed.
    pub positioned: Set<WindowId>,
}

impl EngineModel {
    /// The windows that were moved off the screen of the display.
    pub open spec fn hidden_on(self, display: DisplayId) -> Set<WindowId> {
        Set::new(
            |w: WindowId| self.offscreen.contains_key(w) && self.offscreen[w] == display,
        )
    }

    /// The window floats from now on, or does not.
    pub open spec fn with_floating(self, window: WindowId, floating: bool) -> Self {
        EngineModel {
            floating: if floating {
                self.floating.insert(window)
            } else {
                self.floating.remove(window)
            },
            ..self
        }
    }

    /// The window is kept off the screen of a display from now on, or off none.
    pub open spec fn with_offscreen(self, window: WindowId, display: Option<DisplayId>) -> Self {
        EngineModel {
            offscreen: match display {
                Some(d) => self.offscreen.insert(window, d),
                None => self.offscreen.remove(window),
            },
            ..self
        }
    }

    /// No window has been placed yet by the layout in progress.
    pub open spec fn with_none_placed(self) -> Self {
        EngineModel { positioned: Set::empty(), ..self }
    }

    /// The windows of the workspace that the display shows.
    pub open spec fn shown_on(self, display: DisplayId) -> Set<WindowId> {
        match self.workspaces.active_on(display) {
            Some(id) if self.workspaces.workspaces.contains_key(id) => {
                self.workspaces.workspaces[id].windows
            },
            _ => Set::empty(),
        }
    }
}

impl View for LayoutEngine {
    type V = EngineModel;

    closed spec fn view(&self) -> EngineModel {
        EngineModel {
            workspaces: self.workspaces@,
            floating: self.floating@,
            offscreen: self.offscreen@,
            positioned: self.positioned_windows_this_cycle@,
        }
    }
}

impl LayoutEngine {
    /// An engine over some workspaces, with no window floating or hidden.
    pub fn new(workspaces: VirtualWorkspaceManager) -> (r: Self)
        ensures
            r@.workspaces == workspaces@,
            r@.floating == Set::<WindowId>::empty(),
            r@.offscreen == Map::<WindowId, DisplayId>::empty(),
            r@.positioned == Set::<WindowId>::empty(),
    {
        LayoutEngine {
            workspaces,
            floating: VecSet::new(),
            offscreen: VecMap::new(),
            positioned_windows_this_cycle: VecSet::new(),
        }
    }

    pub fn virtual_workspace_manager(&self) -> (r: &VirtualWorkspaceManager)
        ensures
            r@ == self@.workspaces,
    {
        &self.workspaces
    }

    pub fn virtual_workspace_manager_mut(&mut self) -> (r: &mut VirtualWorkspaceManager)
        ensures
            r@ == old(self)@.workspaces,
            final(self)@ == (EngineModel { workspaces: final(r)@, ..old(self)@ }),
    {
        &mut self.workspaces
    }

    pub fn active_workspace(&self, display: DisplayId) -> (r: Option<VirtualWorkspaceId>)
        ensures
            r == self@.workspaces.active_on(display),
    {
        self.workspaces.active_workspace(display)
    }

    /// The windows of the workspace that the display shows, each once.
    pub fn windows_in_active_workspace(&self, display: DisplayId) -> (r: Vec<WindowId>)
        ensures
            crate::common::sequences::enumerates(r@, self@.shown_on(display)),
    {
        let r = self.workspaces.windows_in_active_workspace(display);
        assert(r@.len() == 0 ==> r@.to_set() =~= Set::<WindowId>::empty());
        r
    }

    pub fn is_window_floating(&self, window_id: WindowId) -> (r: bool)
        ensures
            r == self@.floating.contains(window_id),
    {
        self.floating.contains(&window_id)
    }

    pub fn set_window_floating(&mut self, window_id: WindowId, floating: bool)
        ensures
            final(self)@ == old(self)@.with_floating(window_id, floating),
    {
        if floating {
            self.floating.insert(window_id);
        } else {
            self.floating.remove(&window_id);
        }
    }

    pub fn is_window_offscreen(&self, window_id: WindowId) -> (r: bool)
        ensures
            r == self@.offscreen.contains_key(window_id),
    {
        self.offscreen.contains_key(&window_id)
    }

    /// The display that the window was moved off the screen of.
    pub fn offscreen_display_for_window(&self, window_id: WindowId) -> (r: Option<DisplayId>)
        ensures
            r == self@.offscreen.get(window_id),
    {
        match self.offscreen.get(&window_id) {
            Some(display) => Some(*display),
            None => None,
        }
    }

    /// Records that a window was moved off the screen of a display, or back.
    pub fn set_window_offscreen(&mut self, window_id: WindowId, display: Option<DisplayId>)
        ensures
            final(self)@ == old(self)@.with_offscreen(window_id, display),
    {
        match display {
            Some(d) => {
                self.offscreen.insert(window_id, d);
            },
            None => {
                self.offscreen.remove(&window_id);
            },
        }
    }

    /// The windows that were moved off a screen, each once.
    pub fn windows_to_hide(&self) -> (r: Vec<WindowId>)
        ensures
            crate::common::sequences::enumerates(r@, self@.offscreen.dom()),
    {
        let r = self.offscreen.keys();
        assert(r@.to_set() =~= self@.offscreen.dom());
        r
    }

    /// The windows that were moved off the screen of the display, each once.
    pub fn hidden_windows(&self, display: DisplayId) -> (r: Vec<WindowId>)
        ensures
            crate::common::sequences::enumerates(r@, self@.hidden_on(display)),
    {
        let all = self.windows_to_hide();
        let ghost here = |w: WindowId| self@.offscreen.get(w) == Some(display);
        let mut r: Vec<WindowId> = Vec::new();
        let mut i: usize = 0;
        reveal(Seq::filter);
        while i < all.len()
            invariant
                i <= all@.len(),
                here == |w: WindowId| self@.offscreen.get(w) == Some(display),
                r@ == all@.take(i as int).filter(here),
            decreases all@.len() - i,
        {
            proof {
                crate::common::sequences::lemma_filter_step(all@, i as int, here);
            }
            if self.offscreen_display_for_window(all[i]) == Some(display) {
                r.push(all[i]);
            }
            i += 1;
        }
        proof {
            assert(all@.take(all@.len() as int) =~= all@);
            crate::common::sequences::lemma_filter_enumerates(
                all@,
                self@.offscreen.dom(),
                here,
                self@.hidden_on(display),
            );
        }
        r
    }

    /// Forgets which windows the layout in progress has placed.
    pub fn begin_layout_cycle(&mut self)
        ensures
            final(self)@ == old(self)@.with_none_placed(),
    {
        self.positioned_windows_this_cycle.clear();
    }
}

} // verus!

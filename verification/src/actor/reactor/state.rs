//! The state of the reactor as a whole, and what it asks others to do.
use vstd::prelude::*;
use crate::actor::reactor::managers::{
    AppManager, AppState, AppThreadHandle, CommunicationManager, ConfigManager, Config, DragManager,
    LayoutManager, MainWindowTrackerManager, MenuManager, MissionControlManager,
    MissionControlState, NotificationManager, Screen, SpaceManager, TransactionManager,
    TransactionRecord, WindowManager, WindowServerInfo, WindowServerInfoManager, WindowState,
    WorkspaceSwitchManager,
};
use crate::layout_engine::{EngineModel, LayoutCommand, LayoutEvent};
use crate::model::geometry::Frame;
use crate::model::ids::{pid_t, DisplayId, SpaceId, WindowId, WindowServerId};
use crate::ui::workspace_overlay::{OverlayModel, WorkspaceOverlayManager};

verus! {

/// All that the reactor knows.
pub struct Reactor {
    pub window_manager: WindowManager,
    pub app_manager: AppManager,
    pub space_manager: SpaceManager,
    pub drag_manager: DragManager,
    pub notification_manager: NotificationManager,
    pub menu_manager: MenuManager,
    pub mission_control_manager: MissionControlManager,
    pub workspace_switch_manager: WorkspaceSwitchManager,
    pub communication_manager: CommunicationManager,
    pub config_manager: ConfigManager,
    pub layout_manager: LayoutManager,
    pub window_server_info_manager: WindowServerInfoManager,
    pub main_window_tracker_manager: MainWindowTrackerManager,
    pub transaction_manager: TransactionManager,
    pub workspace_overlay_manager: WorkspaceOverlayManager,
}

/// What the reactor knows.
#[verifier::ext_equal]
pub struct ReactorModel {
    pub windows: Map<WindowId, WindowState>,
    pub window_ids: Map<WindowServerId, WindowId>,
    pub visible_windows: Set<WindowServerId>,
    pub observed: Set<WindowServerId>,
    pub apps: Map<pid_t, AppState>,
    pub screens: Seq<Screen>,
    pub changing_screens: Set<WindowServerId>,
    pub drag: DragManager,
    pub notification: NotificationManager,
    pub menu: MenuManager,
    pub mission_control: MissionControlState,
    pub pending_refresh: Set<pid_t>,
    pub switching: WorkspaceSwitchManager,
    pub channels: CommunicationManager,
    pub config: Config,
    pub engine: EngineModel,
    pub server_info: Map<WindowServerId, WindowServerInfo>,
    pub main_window: Option<WindowId>,
    pub transactions: Map<WindowServerId, TransactionRecord>,
    pub overlay: OverlayModel,
}

impl View for Reactor {
    type V = ReactorModel;

    open spec fn view(&self) -> ReactorModel {
        ReactorModel {
            windows: self.window_manager.windows@,
            window_ids: self.window_manager.window_ids@,
            visible_windows: self.window_manager.visible_windows@,
            observed: self.window_manager.observed_window_server_ids@,
            apps: self.app_manager.apps@,
            screens: self.space_manager.screens@,
            changing_screens: self.space_manager.changing_screens@,
            drag: self.drag_manager,
            notification: self.notification_manager,
            menu: self.menu_manager,
            mission_control: self.mission_control_manager.mission_control_state,
            pending_refresh: self.mission_control_manager.pending_mission_control_refresh@,
            switching: self.workspace_switch_manager,
            channels: self.communication_manager,
            config: self.config_manager.config,
            engine: self.layout_manager.layout_engine@,
            server_info: self.window_server_info_manager.window_server_info@,
            main_window: self.main_window_tracker_manager.main_window_tracker.main_window,
            transactions: self.transaction_manager.records@,
            overlay: self.workspace_overlay_manager@,
        }
    }
}

/// A point on the screen, as the bits of two floating-point numbers.
#[derive(Debug, Clone, Copy, PartialEq, Eq, Structural)]
pub struct ScreenPoint {
    pub x: u64,
    pub y: u64,
}

/// A request to raise windows: groups of windows, each of one application, the window that is to
/// have the focus, and the applications' handles.
#[derive(Debug)]
pub struct RaiseRequest {
    pub raise_windows: Vec<Vec<WindowId>>,
    /// With the point that the mouse is to be moved to, if it is.
    pub focus_window: Option<(WindowId, Option<ScreenPoint>)>,
    pub app_handles: Vec<(pid_t, AppThreadHandle)>,
}

/// What the window manager is asked to do.
#[derive(Debug, Clone, Copy, PartialEq, Eq, Structural)]
pub enum WmCmd {
    ShowMissionControlAll,
    ShowMissionControlCurrent,
}

/// What is to be logged or shown of the metrics.
#[derive(Debug, Clone, Copy, PartialEq, Eq, Structural)]
pub enum MetricsCommand {
    ShowTiming,
}

/// Something that the reactor asks others to do. What it asks for in answer to one event is done
/// in order.
#[derive(Debug)]
pub enum Effect {
    /// Tells the layout of a window, and acts on its answer.
    Layout(LayoutEvent),
    /// Lays the windows out anew.
    UpdateLayout { is_resize: bool, is_workspace_switch: bool },
    /// Stores where the floating windows of the workspace shown on the space are.
    StoreFloatingPositions(SpaceId),
    /// Hides and shows applications by the workspaces that are shown.
    UpdateAppVisibility,
    /// Has the layout follow the settings.
    ApplyLayoutSettings,
    /// Tells the stack line of the settings.
    ConfigToStackLine,
    /// Tells the window manager of the settings.
    ConfigToWm,
    /// Prints the layout tree of a space.
    DebugTree(SpaceId),
    Wm(WmCmd),
    SetMissionControlActive(bool),
    Metrics(MetricsCommand),
    Raise(RaiseRequest),
    /// Has the window server give a window the focus.
    MakeKeyWindow(pid_t, WindowServerId),
    /// Raises a window and announces it.
    RaiseWindow(WindowId),
    EnsureActiveDrag(WindowId, Frame),
    UpdateActiveDrag(WindowId, Frame),
    MarkDragDirty(WindowId),
    MaybeSwapOnDrag(WindowId, Frame),
    /// Has the workspaces shown on a space follow a command.
    WorkspaceCommand(SpaceId, LayoutCommand),
    /// Has the layout follow a command.
    EngineCommand { space: Option<SpaceId>, visible_spaces: Vec<SpaceId>, command: LayoutCommand },
    /// Has two windows change places in the layout.
    SwapWindows {
        space: Option<SpaceId>,
        visible_screens: Vec<(SpaceId, Frame)>,
        dragged: WindowId,
        target: WindowId,
    },
    /// Acts on the answer to the last of the commands before; when there was none, on an empty
    /// answer.
    HandleLayoutResponse,
}

/// The position of the first screen that shows the space.
pub open spec fn showing(screens: Seq<Screen>, space: SpaceId, display: Option<DisplayId>) -> bool {
    match display {
        Some(d) => {
            &&& d < screens.len()
            &&& screens[d as int].space == Some(space)
            &&& forall|i: int| 0 <= i < d ==> (#[trigger] screens[i]).space != Some(space)
        },
        None => forall|i: int| 0 <= i < screens.len() ==> (#[trigger] screens[i]).space != Some(space),
    }
}

/// The spaces that are shown, in the order of the screens.
pub open spec fn visible_spaces(screens: Seq<Screen>) -> Seq<SpaceId> {
    screens.filter(|s: Screen| s.space is Some).map_values(|s: Screen| s.space->0)
}

/// The spaces that are shown with the frames of their screens, in the order of the screens.
pub open spec fn visible_screens(screens: Seq<Screen>) -> Seq<(SpaceId, Frame)> {
    screens.filter(|s: Screen| s.space is Some).map_values(|s: Screen| (s.space->0, s.frame))
}

/// The space of the first screen that shows one.
pub open spec fn first_visible(screens: Seq<Screen>) -> Option<SpaceId> {
    if visible_spaces(screens).len() > 0 {
        Some(visible_spaces(screens)[0])
    } else {
        None
    }
}

/// The space of the first screen.
pub open spec fn first_space(screens: Seq<Screen>) -> Option<SpaceId> {
    if screens.len() > 0 {
        screens[0].space
    } else {
        None
    }
}

impl Reactor {
    /// The display that shows a space.
    pub fn display_for_space(&self, space: SpaceId) -> (r: Option<DisplayId>)
        ensures
            showing(self@.screens, space, r),
    {
        let mut i: usize = 0;
        while i < self.space_manager.screens.len()
            invariant
                i <= self@.screens.len(),
                forall|j: int| 0 <= j < i ==> (#[trigger] self@.screens[j]).space != Some(space),
            decreases self@.screens.len() - i,
        {
            if self.space_manager.screens[i].space == Some(space) {
                return Some(i);
            }
            i += 1;
        }
        None
    }

    /// The spaces that are shown, in the order of the screens.
    pub fn shown_spaces(&self) -> (r: Vec<SpaceId>)
        ensures
            r@ == visible_spaces(self@.screens),
    {
        let shown = self.shown_screens();
        let mut r: Vec<SpaceId> = Vec::new();
        let mut i: usize = 0;
        while i < shown.len()
            invariant
                i <= shown@.len(),
                r@ == Seq::new(i as nat, |j: int| shown@[j].0),
            decreases shown@.len() - i,
        {
            r.push(shown[i].0);
            i += 1;
            assert(r@ =~= Seq::new(i as nat, |j: int| shown@[j].0));
        }
        assert(r@ =~= visible_spaces(self@.screens));
        r
    }

    /// The spaces that are shown with the frames of their screens, in the order of the screens.
    pub fn shown_screens(&self) -> (r: Vec<(SpaceId, Frame)>)
        ensures
            r@ == visible_screens(self@.screens),
    {
        let ghost screens = self@.screens;
        let ghost shows = |s: Screen| s.space is Some;
        let ghost entry = |s: Screen| (s.space->0, s.frame);
        let mut r: Vec<(SpaceId, Frame)> = Vec::new();
        let mut i: usize = 0;
        reveal(Seq::filter);
        assert(r@ =~= screens.take(0).filter(shows).map_values(entry));
        while i < self.space_manager.screens.len()
            invariant
                i <= screens.len(),
                screens == self@.screens,
                shows == |s: Screen| s.space is Some,
                entry == |s: Screen| (s.space->0, s.frame),
                r@ == screens.take(i as int).filter(shows).map_values(entry),
            decreases screens.len() - i,
        {
            let screen = self.space_manager.screens[i];
            proof {
                let kept = screens.take(i as int).filter(shows);
                crate::common::sequences::lemma_filter_step(screens, i as int, shows);
                assert(kept.push(screen).map_values(entry) =~= kept.map_values(entry).push(
                    entry(screen),
                ));
            }
            if let Some(space) = screen.space {
                r.push((space, screen.frame));
            }
            i += 1;
        }
        assert(screens.take(screens.len() as int) =~= screens);
        r
    }
}

} // verus!

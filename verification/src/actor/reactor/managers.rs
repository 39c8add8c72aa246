//! The parts of the reactor's state.
use std::collections::{HashMap, HashSet};
use vstd::prelude::*;
use crate::common::collections::{VecMap, VecSet};
use crate::layout_engine::LayoutEngine;
use crate::model::geometry::Frame;
use crate::model::ids::{pid_t, DisplayId, SpaceId, WindowId, WindowServerId};

verus! {

/// A screen: the space that it shows, if any, and its frame.
#[derive(Debug, Clone, Copy, PartialEq, Eq, Structural)]
pub struct Screen {
    pub space: Option<SpaceId>,
    pub frame: Frame,
}

/// What is known of a window.
#[derive(Debug, Clone, Copy, PartialEq, Eq, Structural)]
pub struct WindowState {
    /// The frame of the window as of the latest event that counted.
    pub frame_monotonic: Frame,
    pub window_server_id: Option<WindowServerId>,
    pub is_minimized: bool,
    pub is_ax_standard: bool,
    pub is_ax_root: bool,
    pub is_manageable: bool,
}

/// A window as the window server describes it.
#[derive(Debug, Clone, Copy, PartialEq, Eq, Structural)]
pub struct WindowServerInfo {
    pub id: WindowServerId,
    pub pid: pid_t,
    pub layer: i32,
    pub frame: Frame,
}

/// The handle of the thread that works for an application.
#[derive(Debug, Clone, Copy, PartialEq, Eq, Structural)]
pub struct AppThreadHandle {
    pub id: u64,
}

/// What an application says of itself.
#[derive(Debug)]
pub struct AppInfo {
    pub bundle_id: Option<String>,
    pub localized_name: Option<String>,
}

#[derive(Debug)]
pub struct AppState {
    pub info: AppInfo,
    pub handle: AppThreadHandle,
}

/// The far end of a channel to another actor.
#[derive(Debug, Clone, Copy, PartialEq, Eq, Structural)]
pub struct Channel {
    pub id: u64,
}

/// A window that is being dragged.
#[derive(Debug, Clone, Copy, PartialEq, Eq, Structural)]
pub struct DragSession {
    pub window: WindowId,
    pub last_frame: Frame,
    pub origin_space: Option<SpaceId>,
    pub settled_space: Option<SpaceId>,
    pub layout_dirty: bool,
}

#[derive(Debug, Clone, Copy, PartialEq, Eq, Structural)]
pub enum DragState {
    Inactive,
    Active { session: DragSession },
    /// The two windows are to change places when the mouse button is let go.
    PendingSwap { dragged: WindowId, target: WindowId },
}

/// How dragged windows snap: the part of a window, as the bits of a floating-point number, that
/// has to be covered for the two to change places.
#[derive(Debug, Clone, Copy, PartialEq, Eq, Structural)]
pub struct WindowSnappingSettings {
    pub drag_swap_fraction: u64,
}

/// The window that is being dragged, the one that it was last over, and where it came from.
#[derive(Debug, Clone, Copy, PartialEq, Eq, Structural)]
pub struct DragSwapManager {
    pub dragged: Option<WindowId>,
    pub last_target: Option<WindowId>,
    pub origin_frame: Option<Frame>,
    pub config: WindowSnappingSettings,
}

/// Manages drag operations and window swapping.
#[derive(Debug, Clone, Copy, PartialEq, Eq, Structural)]
pub struct DragManager {
    pub drag_state: DragState,
    pub drag_swap_manager: DragSwapManager,
    pub skip_layout_for_window: Option<WindowId>,
}

impl DragManager {
    /// The manager with nothing being dragged over anything.
    pub open spec fn at_rest(self) -> Self {
        DragManager {
            drag_swap_manager: DragSwapManager {
                dragged: None,
                last_target: None,
                origin_frame: None,
                ..self.drag_swap_manager
            },
            ..self
        }
    }

    pub fn reset(&mut self)
        ensures
            *final(self) == old(self).at_rest(),
    {
        self.drag_swap_manager.dragged = None;
        self.drag_swap_manager.last_target = None;
        self.drag_swap_manager.origin_frame = None;
    }

    pub fn last_target(&self) -> (r: Option<WindowId>)
        ensures
            r == self.drag_swap_manager.last_target,
    {
        self.drag_swap_manager.last_target
    }

    pub fn dragged(&self) -> (r: Option<WindowId>)
        ensures
            r == self.drag_swap_manager.dragged,
    {
        self.drag_swap_manager.dragged
    }

    pub fn origin_frame(&self) -> (r: Option<Frame>)
        ensures
            r == self.drag_swap_manager.origin_frame,
    {
        self.drag_swap_manager.origin_frame
    }

    pub fn update_config(&mut self, config: WindowSnappingSettings)
        ensures
            *final(self) == (DragManager {
                drag_swap_manager: DragSwapManager { config, ..old(self).drag_swap_manager },
                ..*old(self)
            }),
    {
        self.drag_swap_manager.config = config;
    }
}

/// Manages window state and lifecycle.
pub struct WindowManager {
    pub windows: VecMap<WindowId, WindowState>,
    pub window_ids: VecMap<WindowServerId, WindowId>,
    pub visible_windows: VecSet<WindowServerId>,
    pub observed_window_server_ids: VecSet<WindowServerId>,
}

/// Manages application state.
pub struct AppManager {
    pub apps: HashMap<pid_t, AppState>,
}

/// Manages space and screen state.
pub struct SpaceManager {
    pub screens: Vec<Screen>,
    pub changing_screens: VecSet<WindowServerId>,
}

/// Manages window notifications.
pub struct NotificationManager {
    pub last_sls_notification_ids: Vec<u32>,
    pub window_notify_tx: Option<Channel>,
}

/// Manages the menu bar.
#[derive(Debug, Clone, Copy, PartialEq, Eq, Structural)]
pub struct MenuManager {
    pub menu_tx: Option<Channel>,
}

#[derive(Debug, Clone, Copy, PartialEq, Eq, Structural)]
pub enum MissionControlState {
    Inactive,
    Active,
}

/// Manages Mission Control state.
pub struct MissionControlManager {
    pub mission_control_state: MissionControlState,
    pub pending_mission_control_refresh: HashSet<pid_t>,
}

#[derive(Debug, Clone, Copy, PartialEq, Eq, Structural)]
pub enum WorkspaceSwitchState {
    Inactive,
    Active,
}

/// Manages workspace switching state.
#[derive(Debug)]
pub struct WorkspaceSwitchManager {
    pub workspace_switch_state: WorkspaceSwitchState,
    pub workspace_switch_generation: u64,
    pub active_workspace_switch: Option<u64>,
    pub pending_workspace_mouse_warp: Option<WindowId>,
    /// The applications that each display shows windows of.
    pub visible_apps_per_display: HashMap<DisplayId, HashSet<pid_t>>,
}

/// Manages communication channels to other actors.
#[derive(Debug, Clone, Copy, PartialEq, Eq, Structural)]
pub struct CommunicationManager {
    pub event_tap_tx: Option<Channel>,
    pub stack_line_tx: Option<Channel>,
    pub raise_manager_tx: Channel,
    pub event_broadcaster: Channel,
    pub wm_sender: Option<Channel>,
    pub events_tx: Option<Channel>,
}

/// A key and what it does.
#[derive(Debug, PartialEq, Eq)]
pub struct KeyBinding {
    pub hotkey: String,
    pub command: String,
}

/// The settings that the reactor reads.
#[derive(Debug)]
pub struct Config {
    pub keys: Vec<KeyBinding>,
    pub window_snapping: WindowSnappingSettings,
    pub stack_line_enabled: bool,
}

/// Manages configuration state.
pub struct ConfigManager {
    pub config: Config,
}

/// Manages layout engine state.
pub struct LayoutManager {
    pub layout_engine: LayoutEngine,
}

/// Manages window server information.
pub struct WindowServerInfoManager {
    pub window_server_info: VecMap<WindowServerId, WindowServerInfo>,
}

/// Knows which window has the focus.
#[derive(Debug, Clone, Copy, PartialEq, Eq, Structural)]
pub struct MainWindowTracker {
    pub main_window: Option<WindowId>,
}

/// Manages main window tracking.
#[derive(Debug, Clone, Copy, PartialEq, Eq, Structural)]
pub struct MainWindowTrackerManager {
    pub main_window_tracker: MainWindowTracker,
}

/// A request that was sent for the frame of a window: its number and the frame.
#[derive(Debug, Clone, Copy, PartialEq, Eq, Structural)]
pub struct TransactionRecord {
    pub txid: u32,
    pub target: Frame,
}

/// Keeps the last request that was sent for the frame of each window.
pub struct TransactionManager {
    pub records: VecMap<WindowServerId, TransactionRecord>,
}

/// The number of the last request that was sent for a window; zero when there is none on record.
pub open spec fn last_sent(records: Map<WindowServerId, TransactionRecord>, wsid: WindowServerId) -> u32 {
    if records.contains_key(wsid) {
        records[wsid].txid
    } else {
        0
    }
}

impl TransactionManager {
    pub fn store_txid(&mut self, wsid: WindowServerId, txid: u32, target: Frame)
        ensures
            final(self).records@ == old(self).records@.insert(
                wsid,
                TransactionRecord { txid, target },
            ),
    {
        self.records.insert(wsid, TransactionRecord { txid, target });
    }

    pub fn get_last_sent_txid(&self, wsid: WindowServerId) -> (r: u32)
        ensures
            r == last_sent(self.records@, wsid),
    {
        match self.records.get(&wsid) {
            Some(record) => record.txid,
            None => 0,
        }
    }

    pub fn get_target_frame(&self, wsid: WindowServerId) -> (r: Option<Frame>)
        ensures
            r == match self.records@.get(wsid) {
                Some(record) => Some(record.target),
                None => None,
            },
    {
        match self.records.get(&wsid) {
            Some(record) => Some(record.target),
            None => None,
        }
    }

    pub fn remove_for_window(&mut self, wsid: WindowServerId)
        ensures
            final(self).records@ == old(self).records@.remove(wsid),
    {
        self.records.remove(&wsid);
    }
}

} // verus!

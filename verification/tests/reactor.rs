use std::collections::{HashMap, HashSet};

use rift_workspaces::actor::reactor::events::command::CommandEventHandler;
use rift_workspaces::actor::reactor::events::drag::DragEventHandler;
use rift_workspaces::actor::reactor::events::window::{
    FrameReading, MouseState, WindowEventHandler, WindowInfo,
};
use rift_workspaces::actor::reactor::layout::{
    any_frame_changed, tell_groups, GroupContainer, LayoutStep, OverlayPlan,
    DEFAULT_WINDOW_EXTENT,
};
use rift_workspaces::actor::reactor::managers::{
    AppInfo, AppManager, AppState, AppThreadHandle, Channel, CommunicationManager, Config,
    ConfigManager, DragManager, DragSession, DragState, DragSwapManager, KeyBinding, LayoutManager,
    MainWindowTracker, MainWindowTrackerManager, MenuManager, MissionControlManager,
    MissionControlState, NotificationManager, Screen, SpaceManager, TransactionManager,
    WindowManager, WindowServerInfo, WindowServerInfoManager, WindowSnappingSettings,
    WorkspaceSwitchManager, WorkspaceSwitchState,
};
use rift_workspaces::actor::reactor::query::{Query, QueryAnswer};
use rift_workspaces::actor::reactor::state::{Effect, MetricsCommand, Reactor, WmCmd};
use rift_workspaces::common::collections::{VecMap, VecSet};
use rift_workspaces::layout_engine::{LayoutCommand, LayoutEngine, LayoutEvent};
use rift_workspaces::model::geometry::Frame;
use rift_workspaces::model::ids::{SpaceId, WindowId, WindowServerId};
use rift_workspaces::model::server::WindowData;
use rift_workspaces::model::virtual_workspace::VirtualWorkspaceManager;
use rift_workspaces::ui::workspace_overlay::{
    OverlayError, OverlayOperation, OverlayWindow, WorkspaceOverlayManager,
};

fn frame(x: f64, y: f64, width: f64, height: f64) -> Frame {
    Frame {
        x: x.to_bits(),
        y: y.to_bits(),
        width: width.to_bits(),
        height: height.to_bits(),
    }
}

fn settings() -> Config {
    Config {
        keys: vec![KeyBinding { hotkey: "Alt+H".to_string(), command: "move left".to_string() }],
        window_snapping: WindowSnappingSettings { drag_swap_fraction: 0.3f64.to_bits() },
        stack_line_enabled: false,
    }
}

/// Two screens, the first with space 10 and the second with space 20, and an application with the
/// process 1.
fn reactor() -> Reactor {
    let mut apps = HashMap::new();
    apps.insert(
        1,
        AppState {
            info: AppInfo {
                bundle_id: Some("com.example.one".to_string()),
                localized_name: Some("One".to_string()),
            },
            handle: AppThreadHandle { id: 100 },
        },
    );
    Reactor {
        window_manager: WindowManager {
            windows: VecMap::new(),
            window_ids: VecMap::new(),
            visible_windows: VecSet::new(),
            observed_window_server_ids: VecSet::new(),
        },
        app_manager: AppManager { apps },
        space_manager: SpaceManager {
            screens: vec![
                Screen { space: Some(SpaceId::new(10)), frame: frame(0.0, 0.0, 1000.0, 800.0) },
                Screen { space: Some(SpaceId::new(20)), frame: frame(1000.0, 0.0, 900.0, 700.0) },
            ],
            changing_screens: VecSet::new(),
        },
        drag_manager: DragManager {
            drag_state: DragState::Inactive,
            drag_swap_manager: DragSwapManager {
                dragged: None,
                last_target: None,
                origin_frame: None,
                config: WindowSnappingSettings { drag_swap_fraction: 0.3f64.to_bits() },
            },
            skip_layout_for_window: None,
        },
        notification_manager: NotificationManager {
            last_sls_notification_ids: Vec::new(),
            window_notify_tx: None,
        },
        menu_manager: MenuManager { menu_tx: None },
        mission_control_manager: MissionControlManager {
            mission_control_state: MissionControlState::Inactive,
            pending_mission_control_refresh: HashSet::new(),
        },
        workspace_switch_manager: WorkspaceSwitchManager {
            workspace_switch_state: WorkspaceSwitchState::Inactive,
            workspace_switch_generation: 0,
            active_workspace_switch: None,
            pending_workspace_mouse_warp: None,
            visible_apps_per_display: HashMap::new(),
        },
        communication_manager: CommunicationManager {
            event_tap_tx: None,
            stack_line_tx: None,
            raise_manager_tx: Channel { id: 1 },
            event_broadcaster: Channel { id: 2 },
            wm_sender: None,
            events_tx: None,
        },
        config_manager: ConfigManager { config: settings() },
        layout_manager: LayoutManager {
            layout_engine: LayoutEngine::new(VirtualWorkspaceManager::new()),
        },
        window_server_info_manager: WindowServerInfoManager { window_server_info: VecMap::new() },
        main_window_tracker_manager: MainWindowTrackerManager {
            main_window_tracker: MainWindowTracker { main_window: None },
        },
        transaction_manager: TransactionManager { records: VecMap::new() },
        workspace_overlay_manager: WorkspaceOverlayManager::new(),
    }
}

fn info(sys_id: u32) -> WindowInfo {
    WindowInfo {
        frame: frame(10.0, 10.0, 400.0, 300.0),
        sys_id: Some(WindowServerId::new(sys_id)),
        is_minimized: false,
        is_ax_standard: true,
        is_ax_root: true,
    }
}

fn add(reactor: &mut Reactor, wid: WindowId, sys_id: u32) -> Vec<Effect> {
    WindowEventHandler::handle_window_created(
        reactor,
        wid,
        info(sys_id),
        None,
        MouseState::Up,
        true,
        Some(SpaceId::new(10)),
    )
}

fn reading(old: Option<u64>, new: Option<u64>) -> FrameReading {
    FrameReading {
        old_space: old.map(SpaceId::new),
        new_space: new.map(SpaceId::new),
        is_as_before: false,
        is_as_requested: false,
    }
}

fn data(wid: WindowId, title: &str) -> WindowData {
    WindowData {
        id: wid,
        title: title.to_string(),
        frame: frame(1.0, 1.0, 2.0, 2.0),
        is_floating: false,
        is_focused: false,
        bundle_id: None,
        window_server_id: Some(7),
    }
}

#[test]
fn created_window_is_known_and_told_to_the_layout() {
    let mut reactor = reactor();
    let wid = WindowId::new(1, 1);
    let wsid = WindowServerId::new(5);
    reactor.window_manager.observed_window_server_ids.insert(wsid);
    let server = WindowServerInfo { id: wsid, pid: 1, layer: 0, frame: info(5).frame };
    let effects = WindowEventHandler::handle_window_created(
        &mut reactor,
        wid,
        info(5),
        Some(server),
        MouseState::Up,
        true,
        Some(SpaceId::new(10)),
    );
    assert_eq!(effects.len(), 1);
    assert!(matches!(
        effects[0],
        Effect::Layout(LayoutEvent::WindowAdded(space, w)) if space == SpaceId::new(10) && w == wid
    ));
    assert_eq!(reactor.window_manager.window_ids.get(&wsid), Some(&wid));
    assert!(!reactor.window_manager.observed_window_server_ids.contains(&wsid));
    assert_eq!(reactor.window_server_info_manager.window_server_info.get(&wsid), Some(&server));
    assert_eq!(reactor.transaction_manager.get_target_frame(wsid), Some(info(5).frame));
    assert!(reactor.window_manager.windows.get(&wid).unwrap().is_manageable);
    let unmanaged = WindowEventHandler::handle_window_created(
        &mut reactor,
        WindowId::new(1, 2),
        info(6),
        None,
        MouseState::Up,
        false,
        Some(SpaceId::new(10)),
    );
    assert!(unmanaged.is_empty());
}

#[test]
fn destroyed_window_takes_no_part_in_drags() {
    let mut reactor = reactor();
    let (a, b) = (WindowId::new(1, 1), WindowId::new(1, 2));
    add(&mut reactor, a, 5);
    add(&mut reactor, b, 6);
    reactor.drag_manager.drag_state = DragState::PendingSwap { dragged: b, target: a };
    reactor.drag_manager.drag_swap_manager.last_target = Some(a);
    reactor.drag_manager.drag_swap_manager.dragged = Some(b);
    reactor.drag_manager.skip_layout_for_window = Some(a);
    let (known, effects) = WindowEventHandler::handle_window_destroyed(&mut reactor, a);
    assert!(known);
    assert!(matches!(effects[..], [Effect::Layout(LayoutEvent::WindowRemoved(w))] if w == a));
    assert!(!reactor.window_manager.windows.contains_key(&a));
    // The layout is told of the removal while the drag is still as it was.
    assert_eq!(
        reactor.drag_manager.drag_state,
        DragState::PendingSwap { dragged: b, target: a }
    );
    assert_eq!(reactor.drag_manager.skip_layout_for_window, Some(a));
    WindowEventHandler::settle_window_destroyed(&mut reactor, a);
    assert_eq!(reactor.drag_manager.drag_state, DragState::Inactive);
    assert_eq!(reactor.drag_manager.dragged(), None);
    assert_eq!(reactor.drag_manager.last_target(), None);
    assert_eq!(reactor.drag_manager.skip_layout_for_window, None);
    assert!(!reactor.window_manager.windows.contains_key(&a));
    assert!(!reactor.window_manager.window_ids.contains_key(&WindowServerId::new(5)));
    let (known, effects) = WindowEventHandler::handle_window_destroyed(&mut reactor, a);
    assert!(!known && effects.is_empty());
}

#[test]
fn minimized_window_comes_back() {
    let mut reactor = reactor();
    let wid = WindowId::new(1, 1);
    add(&mut reactor, wid, 5);
    reactor.window_manager.visible_windows.insert(WindowServerId::new(5));
    let before = *reactor.window_manager.windows.get(&wid).unwrap();
    assert_eq!(WindowEventHandler::handle_window_minimized(&mut reactor, wid).len(), 1);
    assert!(WindowEventHandler::handle_window_minimized(&mut reactor, wid).is_empty());
    assert!(!reactor.window_manager.visible_windows.contains(&WindowServerId::new(5)));
    assert!(!reactor.window_manager.windows.get(&wid).unwrap().is_manageable);
    let effects = WindowEventHandler::handle_window_deminiaturized(
        &mut reactor,
        wid,
        true,
        Some(SpaceId::new(20)),
    );
    assert_eq!(effects.len(), 1);
    assert_eq!(*reactor.window_manager.windows.get(&wid).unwrap(), before);
    assert!(WindowEventHandler::handle_window_deminiaturized(&mut reactor, wid, true, None)
        .is_empty());
    let unknown = WindowId::new(9, 9);
    assert!(WindowEventHandler::handle_window_minimized(&mut reactor, unknown).is_empty());
}

#[test]
fn outdated_and_requested_frames_are_ignored() {
    let mut reactor = reactor();
    let wid = WindowId::new(1, 1);
    add(&mut reactor, wid, 5);
    reactor.transaction_manager.store_txid(
        WindowServerId::new(5),
        3,
        frame(0.0, 0.0, 50.0, 50.0),
    );
    let moved = frame(0.0, 0.0, 60.0, 60.0);
    let before = reactor.window_manager.windows.get(&wid).unwrap().frame_monotonic;
    for (seen, requested) in [(Some(2), false), (Some(3), true), (None, true)] {
        let (resized, effects) = WindowEventHandler::handle_window_frame_changed(
            &mut reactor,
            wid,
            moved,
            seen,
            requested,
            None,
            reading(Some(10), Some(10)),
        );
        assert!(!resized && effects.is_empty());
        assert_eq!(reactor.window_manager.windows.get(&wid).unwrap().frame_monotonic, before);
    }
    reactor.mission_control_manager.mission_control_state = MissionControlState::Active;
    let (_, effects) = WindowEventHandler::handle_window_frame_changed(
        &mut reactor,
        wid,
        moved,
        None,
        false,
        None,
        reading(Some(10), Some(20)),
    );
    assert!(effects.is_empty());
}

#[test]
fn requested_frame_is_settled_when_it_is_reached() {
    let mut reactor = reactor();
    let wid = WindowId::new(1, 1);
    let wsid = WindowServerId::new(5);
    add(&mut reactor, wid, 5);
    let target = frame(0.0, 0.0, 50.0, 50.0);
    reactor.transaction_manager.store_txid(wsid, 3, target);
    let mut on_the_way = reading(Some(10), Some(10));
    let (_, effects) = WindowEventHandler::handle_window_frame_changed(
        &mut reactor,
        wid,
        frame(0.0, 0.0, 70.0, 70.0),
        Some(3),
        false,
        None,
        on_the_way,
    );
    assert!(effects.is_empty());
    assert_eq!(reactor.transaction_manager.get_last_sent_txid(wsid), 3);
    on_the_way.is_as_requested = true;
    WindowEventHandler::handle_window_frame_changed(
        &mut reactor,
        wid,
        target,
        Some(3),
        false,
        None,
        on_the_way,
    );
    assert_eq!(reactor.window_manager.windows.get(&wid).unwrap().frame_monotonic, target);
    assert_eq!(reactor.transaction_manager.get_target_frame(wsid), None);
}

#[test]
fn dragged_window_updates_the_drag() {
    let mut reactor = reactor();
    let wid = WindowId::new(1, 1);
    add(&mut reactor, wid, 5);
    let grown = frame(10.0, 10.0, 500.0, 300.0);
    let (_, effects) = WindowEventHandler::handle_window_frame_changed(
        &mut reactor,
        wid,
        grown,
        None,
        false,
        Some(MouseState::Down),
        reading(Some(10), Some(10)),
    );
    assert!(matches!(
        effects[..],
        [
            Effect::EnsureActiveDrag(_, _),
            Effect::UpdateActiveDrag(_, _),
            Effect::MarkDragDirty(_),
            Effect::MaybeSwapOnDrag(_, _)
        ]
    ));
    reactor.drag_manager.drag_state = DragState::Active {
        session: DragSession {
            window: wid,
            last_frame: grown,
            origin_space: None,
            settled_space: None,
            layout_dirty: false,
        },
    };
    let (_, effects) = WindowEventHandler::handle_window_frame_changed(
        &mut reactor,
        wid,
        frame(20.0, 10.0, 500.0, 300.0),
        None,
        false,
        None,
        reading(Some(10), Some(20)),
    );
    assert_eq!(effects.len(), 3);
}

#[test]
fn window_that_is_moved_to_another_space_joins_its_workspace() {
    let mut reactor = reactor();
    let wid = WindowId::new(1, 1);
    add(&mut reactor, wid, 5);
    let manager = reactor.layout_manager.layout_engine.virtual_workspace_manager_mut();
    let here = manager.list_workspaces(0);
    let there = manager.list_workspaces(1);
    manager.assign_window_to_workspace(0, wid, here[0].0);
    let (resized, effects) = WindowEventHandler::handle_window_frame_changed(
        &mut reactor,
        wid,
        frame(1200.0, 10.0, 400.0, 300.0),
        None,
        false,
        None,
        reading(Some(10), Some(20)),
    );
    assert!(!resized);
    assert!(matches!(
        effects[..],
        [
            Effect::Layout(LayoutEvent::WindowAdded(space, _)),
            Effect::UpdateLayout { is_resize: false, is_workspace_switch: false }
        ] if space == SpaceId::new(20)
    ));
    let manager = reactor.layout_manager.layout_engine.virtual_workspace_manager();
    assert_eq!(manager.workspace_for_window(1, wid), Some(there[0].0));
    assert_eq!(manager.workspace_for_window(0, wid), None);
    reactor.layout_manager.layout_engine.set_window_offscreen(wid, Some(1));
    let (_, effects) = WindowEventHandler::handle_window_frame_changed(
        &mut reactor,
        wid,
        frame(9000.0, 10.0, 400.0, 300.0),
        None,
        false,
        None,
        reading(Some(20), None),
    );
    assert!(effects.is_empty());
    reactor.layout_manager.layout_engine.set_window_offscreen(wid, None);
    let (_, effects) = WindowEventHandler::handle_window_frame_changed(
        &mut reactor,
        wid,
        frame(9100.0, 10.0, 400.0, 300.0),
        None,
        false,
        None,
        reading(Some(20), None),
    );
    assert!(matches!(effects[0], Effect::Layout(LayoutEvent::WindowRemoved(w)) if w == wid));
}

#[test]
fn resized_window_is_told_with_the_screens() {
    let mut reactor = reactor();
    let wid = WindowId::new(1, 1);
    add(&mut reactor, wid, 5);
    let same = reading(Some(10), Some(10));
    let (resized, effects) = WindowEventHandler::handle_window_frame_changed(
        &mut reactor,
        wid,
        frame(10.0, 10.0, 450.0, 300.0),
        None,
        false,
        None,
        same,
    );
    assert!(resized);
    match &effects[..] {
        [Effect::Layout(LayoutEvent::WindowResized { screens, old_frame, .. })] => {
            assert_eq!(screens.len(), 2);
            assert_eq!(screens[1].0, SpaceId::new(20));
            assert_eq!(*old_frame, info(5).frame);
        }
        _ => panic!("unexpected effects"),
    }
    let (resized, effects) = WindowEventHandler::handle_window_frame_changed(
        &mut reactor,
        wid,
        frame(30.0, 10.0, 450.0, 300.0),
        None,
        false,
        None,
        same,
    );
    assert!(!resized && effects.is_empty());
}

#[test]
fn mouse_over_a_window_may_raise_it() {
    let mut reactor = reactor();
    let wid = WindowId::new(1, 1);
    add(&mut reactor, wid, 5);
    let wsid = WindowServerId::new(5);
    assert!(matches!(
        WindowEventHandler::handle_mouse_moved_over_window(&reactor, wsid, true),
        Some(Effect::RaiseWindow(w)) if w == wid
    ));
    assert!(WindowEventHandler::handle_mouse_moved_over_window(&reactor, wsid, false).is_none());
    let unknown = WindowServerId::new(6);
    assert!(WindowEventHandler::handle_mouse_moved_over_window(&reactor, unknown, true).is_none());
}

#[test]
fn workspace_switch_stores_positions_and_shows_applications_first() {
    let mut reactor = reactor();
    let space = SpaceId::new(10);
    let cmd = LayoutCommand::NextWorkspace(None);
    let intake = CommandEventHandler::prepare_command_layout(&reactor, &cmd, Some(space));
    assert!(matches!(intake.store, Some(Effect::StoreFloatingPositions(s)) if s == space));
    assert_eq!(intake.visible_spaces, vec![SpaceId::new(10), SpaceId::new(20)]);
    assert_eq!(reactor.workspace_switch_manager.active_workspace_switch, None);
    let taken = CommandEventHandler::handle_command_layout(
        &mut reactor,
        cmd,
        intake.visible_spaces,
        Some(space),
    );
    assert!(matches!(
        taken.handed_on,
        Some(Effect::WorkspaceCommand(s, LayoutCommand::NextWorkspace(None))) if s == space
    ));
    assert!(taken.is_workspace_switch && !taken.is_window_workspace_change);
    // While the command is followed, the switch has its number but is not under way yet.
    assert_eq!(reactor.workspace_switch_manager.active_workspace_switch, Some(1));
    assert_eq!(
        reactor.workspace_switch_manager.workspace_switch_state,
        WorkspaceSwitchState::Inactive
    );
    let effects = CommandEventHandler::finish_command_layout(
        &mut reactor,
        taken.is_workspace_switch,
        taken.is_window_workspace_change,
    );
    assert!(matches!(effects[..], [Effect::UpdateAppVisibility, Effect::HandleLayoutResponse]));
    assert_eq!(
        reactor.workspace_switch_manager.workspace_switch_state,
        WorkspaceSwitchState::Active
    );
}

#[test]
fn commands_about_workspaces_need_a_space() {
    let mut reactor = reactor();
    let cmd = LayoutCommand::SwitchToLastWorkspace;
    let intake = CommandEventHandler::prepare_command_layout(&reactor, &cmd, None);
    assert!(intake.store.is_none());
    let taken = CommandEventHandler::handle_command_layout(&mut reactor, cmd, Vec::new(), None);
    assert!(taken.handed_on.is_none() && taken.is_workspace_switch);
    assert_eq!(reactor.workspace_switch_manager.active_workspace_switch, Some(1));
}

#[test]
fn other_commands_go_to_the_layout() {
    let mut reactor = reactor();
    reactor.workspace_switch_manager.workspace_switch_state = WorkspaceSwitchState::Active;
    let space = SpaceId::new(10);
    let cmd = LayoutCommand::Within("move focus left".to_string());
    let intake = CommandEventHandler::prepare_command_layout(&reactor, &cmd, Some(space));
    assert!(intake.store.is_none());
    let taken = CommandEventHandler::handle_command_layout(
        &mut reactor,
        cmd,
        intake.visible_spaces,
        Some(space),
    );
    match taken.handed_on {
        Some(Effect::EngineCommand { space: Some(told), visible_spaces, .. }) => {
            assert_eq!(told, space);
            assert_eq!(visible_spaces, vec![SpaceId::new(10), SpaceId::new(20)]);
        }
        _ => panic!("unexpected effect"),
    }
    assert_eq!(reactor.workspace_switch_manager.active_workspace_switch, None);
    let effects = CommandEventHandler::finish_command_layout(&mut reactor, false, false);
    assert!(matches!(effects[..], [Effect::HandleLayoutResponse]));
    assert_eq!(
        reactor.workspace_switch_manager.workspace_switch_state,
        WorkspaceSwitchState::Inactive
    );
    let taken = CommandEventHandler::handle_command_layout(
        &mut reactor,
        LayoutCommand::MoveWindowToWorkspace(1),
        Vec::new(),
        Some(space),
    );
    assert!(!taken.is_workspace_switch && taken.is_window_workspace_change);
    let effects = CommandEventHandler::finish_command_layout(&mut reactor, false, true);
    assert!(matches!(effects[..], [Effect::UpdateAppVisibility, Effect::HandleLayoutResponse]));
}

#[test]
fn generation_of_switches_wraps_around() {
    let mut reactor = reactor();
    reactor.workspace_switch_manager.workspace_switch_generation = u64::MAX;
    CommandEventHandler::handle_command_layout(
        &mut reactor,
        LayoutCommand::SwitchToWorkspace(0),
        Vec::new(),
        None,
    );
    assert_eq!(reactor.workspace_switch_manager.active_workspace_switch, Some(0));
}

#[test]
fn new_settings_are_announced() {
    let mut reactor = reactor();
    reactor.communication_manager.wm_sender = Some(Channel { id: 3 });
    reactor.communication_manager.stack_line_tx = Some(Channel { id: 4 });
    let mut other = settings();
    other.window_snapping.drag_swap_fraction = 0.5f64.to_bits();
    let before = reactor.drag_manager.drag_swap_manager.config.drag_swap_fraction;
    let (old_keys, effect) = CommandEventHandler::handle_config_updated(&mut reactor, other);
    assert!(matches!(effect, Effect::ApplyLayoutSettings));
    // The layout follows the settings before the drags do.
    assert_eq!(reactor.drag_manager.drag_swap_manager.config.drag_swap_fraction, before);
    let effects = CommandEventHandler::settle_config_updated(&mut reactor);
    assert!(matches!(
        effects[..],
        [
            Effect::ConfigToStackLine,
            Effect::UpdateLayout { is_resize: false, is_workspace_switch: true }
        ]
    ));
    assert_eq!(
        reactor.drag_manager.drag_swap_manager.config.drag_swap_fraction,
        0.5f64.to_bits()
    );
    assert!(CommandEventHandler::finish_config_updated(&reactor, &old_keys).is_none());
    let mut other = settings();
    other.keys[0].command = "move right".to_string();
    let (old_keys, _) = CommandEventHandler::handle_config_updated(&mut reactor, other);
    assert_eq!(old_keys, settings().keys);
    let effect = CommandEventHandler::finish_config_updated(&reactor, &old_keys);
    assert!(matches!(effect, Some(Effect::ConfigToWm)));
    let mut other = settings();
    other.keys[0].command = "move right".to_string();
    let (old_keys, _) = CommandEventHandler::handle_config_updated(&mut reactor, other);
    assert!(CommandEventHandler::finish_config_updated(&reactor, &old_keys).is_none());
    reactor.communication_manager.stack_line_tx = None;
    let effects = CommandEventHandler::settle_config_updated(&mut reactor);
    assert!(matches!(effects[..], [Effect::UpdateLayout { .. }]));
}

#[test]
fn focus_is_given_by_the_application_or_the_window_server() {
    let mut reactor = reactor();
    let wid = WindowId::new(1, 1);
    let wsid = WindowServerId::new(5);
    let effects = CommandEventHandler::handle_command_reactor_focus_window(
        &reactor,
        wid,
        Some(wsid),
        Some(SpaceId::new(10)),
    );
    assert!(matches!(effects[..], [Effect::MakeKeyWindow(1, w)] if w == wsid));
    assert!(CommandEventHandler::handle_command_reactor_focus_window(&reactor, wid, None, None)
        .is_empty());
    add(&mut reactor, wid, 5);
    let effects = CommandEventHandler::handle_command_reactor_focus_window(
        &reactor,
        wid,
        Some(wsid),
        Some(SpaceId::new(10)),
    );
    match &effects[..] {
        [Effect::Layout(LayoutEvent::WindowFocused(_, _)), Effect::Raise(request)] => {
            assert!(request.raise_windows.is_empty());
            assert_eq!(request.focus_window, Some((wid, None)));
            assert_eq!(request.app_handles, vec![(1, AppThreadHandle { id: 100 })]);
        }
        _ => panic!("unexpected effects"),
    }
}

#[test]
fn mission_control_goes_through_the_window_manager() {
    let mut reactor = reactor();
    assert!(
        CommandEventHandler::handle_command_reactor_show_mission_control_all(&reactor).is_none()
    );
    assert!(matches!(
        CommandEventHandler::handle_command_reactor_dismiss_mission_control(&reactor),
        Effect::SetMissionControlActive(false)
    ));
    reactor.communication_manager.wm_sender = Some(Channel { id: 3 });
    assert!(matches!(
        CommandEventHandler::handle_command_reactor_show_mission_control_all(&reactor),
        Some(Effect::Wm(WmCmd::ShowMissionControlAll))
    ));
    assert!(matches!(
        CommandEventHandler::handle_command_reactor_show_mission_control_current(&reactor),
        Some(Effect::Wm(WmCmd::ShowMissionControlCurrent))
    ));
    assert!(matches!(
        CommandEventHandler::handle_command_reactor_dismiss_mission_control(&reactor),
        Effect::Wm(WmCmd::ShowMissionControlAll)
    ));
}

#[test]
fn metrics_and_debug_commands_are_handed_on() {
    let mut reactor = reactor();
    assert!(matches!(
        CommandEventHandler::handle_command_metrics(&reactor, MetricsCommand::ShowTiming),
        Effect::Metrics(MetricsCommand::ShowTiming)
    ));
    reactor.space_manager.screens[0].space = None;
    let effects = CommandEventHandler::handle_command_reactor_debug(&reactor);
    assert!(matches!(effects[..], [Effect::DebugTree(space)] if space == SpaceId::new(20)));
}

#[test]
fn windows_change_places_when_the_drag_ends() {
    let mut reactor = reactor();
    let (a, b) = (WindowId::new(1, 1), WindowId::new(1, 2));
    add(&mut reactor, a, 5);
    add(&mut reactor, b, 6);
    reactor.drag_manager.drag_state = DragState::PendingSwap { dragged: a, target: b };
    reactor.drag_manager.drag_swap_manager.dragged = Some(a);
    let up = DragEventHandler::handle_mouse_up(&mut reactor, None, Some(SpaceId::new(20)));
    assert!(up.need_layout_refresh);
    match &up.effects[..] {
        [Effect::SwapWindows { space, visible_screens, dragged, target }, Effect::HandleLayoutResponse] => {
            assert_eq!(*space, Some(SpaceId::new(10)));
            assert_eq!(visible_screens.len(), 2);
            assert_eq!((*dragged, *target), (a, b));
        }
        _ => panic!("unexpected effects"),
    }
    assert_eq!(reactor.drag_manager.skip_layout_for_window, Some(a));
    assert!(matches!(
        DragEventHandler::settle_mouse_up(&mut reactor, true, false),
        Some(Effect::UpdateLayout { is_resize: false, is_workspace_switch: false })
    ));
    assert_eq!(reactor.drag_manager.dragged(), None);
    DragEventHandler::finish_mouse_up(&mut reactor);
    assert_eq!(reactor.drag_manager.skip_layout_for_window, None);
    let up = DragEventHandler::handle_mouse_up(&mut reactor, None, None);
    assert!(!up.need_layout_refresh && up.effects.is_empty());
    assert!(DragEventHandler::settle_mouse_up(&mut reactor, false, false).is_none());
    assert!(DragEventHandler::settle_mouse_up(&mut reactor, false, true).is_some());
}

#[test]
fn windows_that_are_gone_do_not_change_places() {
    let mut reactor = reactor();
    let (a, b) = (WindowId::new(1, 1), WindowId::new(1, 2));
    add(&mut reactor, a, 5);
    reactor.drag_manager.drag_state = DragState::PendingSwap { dragged: a, target: b };
    let up = DragEventHandler::handle_mouse_up(&mut reactor, None, None);
    assert!(!up.need_layout_refresh && up.effects.is_empty());
    assert_eq!(reactor.drag_manager.skip_layout_for_window, Some(a));
    assert_eq!(reactor.drag_manager.origin_frame(), None);
}

#[test]
fn layout_is_planned_space_by_space() {
    let mut reactor = reactor();
    let jobs = LayoutManager::calculate_layout(&mut reactor);
    assert_eq!(jobs.len(), 2);
    assert_eq!(jobs[0].0, SpaceId::new(10));
    let wid = WindowId::new(1, 1);
    assert_eq!(
        LayoutManager::window_size(&reactor, wid),
        (DEFAULT_WINDOW_EXTENT, DEFAULT_WINDOW_EXTENT)
    );
    assert_eq!(DEFAULT_WINDOW_EXTENT, 500.0f64.to_bits());
    add(&mut reactor, wid, 5);
    assert_eq!(
        LayoutManager::window_size(&reactor, wid),
        (400.0f64.to_bits(), 300.0f64.to_bits())
    );
    let (shown, hidden) = (SpaceId::new(10), SpaceId::new(30));
    reactor.drag_manager.skip_layout_for_window = Some(wid);
    let skip = LayoutManager::take_skipped_window(&mut reactor);
    assert_eq!(skip, Some(wid));
    assert_eq!(LayoutManager::take_skipped_window(&mut reactor), None);
    assert_eq!(
        LayoutManager::apply_layout(&reactor, shown, true, false, skip),
        vec![LayoutStep::Animate { space: shown, is_resize: true, skip: Some(wid) }]
    );
    reactor.config_manager.config.stack_line_enabled = true;
    reactor.communication_manager.stack_line_tx = Some(Channel { id: 4 });
    assert_eq!(
        LayoutManager::apply_layout(&reactor, shown, false, true, None),
        vec![
            LayoutStep::UpdateStackLine { space: shown, frame: frame(0.0, 0.0, 1000.0, 800.0) },
            LayoutStep::Instant { space: shown, skip: None },
        ]
    );
    // Whether a switch is under way is asked for each space anew.
    reactor.workspace_switch_manager.active_workspace_switch = Some(1);
    assert_eq!(
        LayoutManager::apply_layout(&reactor, hidden, false, false, None),
        vec![LayoutStep::Instant { space: hidden, skip: None }]
    );
    reactor.drag_manager.drag_swap_manager.dragged = Some(wid);
    assert_eq!(LayoutManager::take_skipped_window(&mut reactor), Some(wid));
    assert_eq!(LayoutManager::take_skipped_window(&mut reactor), Some(wid));
    assert!(any_frame_changed(&vec![false, true]));
    assert!(!any_frame_changed(&vec![false, false]));
}

#[test]
fn groups_are_told_with_their_space() {
    let group = GroupContainer {
        node_id: 3,
        container_kind: 1,
        frame: frame(0.0, 0.0, 1.0, 1.0),
        total_count: 4,
        selected_index: 2,
    };
    let told = tell_groups(SpaceId::new(10), &vec![group]);
    assert_eq!(told.len(), 1);
    assert_eq!(told[0].space_id, SpaceId::new(10));
    assert_eq!(
        (told[0].node_id, told[0].container_kind, told[0].total_count, told[0].selected_index),
        (3, 1, 4, 2)
    );
}

#[test]
fn overlay_hides_offscreen_windows_and_shown_ones_are_raised_once() {
    let mut reactor = reactor();
    let (seen, away, other) = (WindowId::new(1, 1), WindowId::new(1, 2), WindowId::new(2, 1));
    add(&mut reactor, seen, 5);
    add(&mut reactor, away, 6);
    add(&mut reactor, other, 7);
    let engine = &mut reactor.layout_manager.layout_engine;
    let listed = engine.virtual_workspace_manager_mut().list_workspaces(0);
    for wid in [seen, other] {
        engine.virtual_workspace_manager_mut().assign_window_to_workspace(0, wid, listed[0].0);
    }
    engine.virtual_workspace_manager_mut().assign_window_to_workspace(0, away, listed[1].0);
    engine.set_window_offscreen(away, Some(0));
    let screen = frame(0.0, 0.0, 1000.0, 800.0);
    let (hidden, visible) = match LayoutManager::plan_overlay(&reactor, 0, screen) {
        OverlayPlan::Show { operations, hidden, visible } => {
            assert_eq!(operations.len(), 5);
            (hidden, visible)
        }
        OverlayPlan::Hide { .. } => panic!("the overlay is to be shown"),
    };
    assert_eq!(hidden, vec![away]);
    assert_eq!(visible.len(), 2);
    let made = OverlayWindow { id: 50 };
    let follow_up =
        LayoutManager::overlay_shown(&mut reactor, 0, &hidden, &visible, Ok(made)).unwrap();
    let request = follow_up.raise.unwrap();
    assert_eq!(request.raise_windows, vec![vec![seen]]);
    assert_eq!(request.app_handles, vec![(1, AppThreadHandle { id: 100 })]);
    assert_eq!(request.focus_window, None);
    assert_eq!(follow_up.order.len(), 3);
    assert_eq!(follow_up.order[0], OverlayOperation::OrderAbove(made, 6));
    assert!(follow_up.order[1..].contains(&OverlayOperation::OrderBelow(made, 5)));
    assert!(follow_up.order[1..].contains(&OverlayOperation::OrderBelow(made, 7)));
    let again =
        LayoutManager::overlay_shown(&mut reactor, 0, &hidden, &visible, Ok(made)).unwrap();
    assert!(again.raise.is_none());
    assert_eq!(again.order.len(), 3);
    let error = OverlayError { code: 4 };
    assert!(matches!(
        LayoutManager::overlay_shown(&mut reactor, 0, &hidden, &visible, Err(error)),
        Err(e) if e == error
    ));
    reactor.layout_manager.layout_engine.set_window_offscreen(away, None);
    match LayoutManager::plan_overlay(&reactor, 0, screen) {
        OverlayPlan::Hide { operations } => {
            assert_eq!(operations, vec![OverlayOperation::OrderOut(made)]);
        }
        OverlayPlan::Show { .. } => panic!("the overlay is to be hidden"),
    }
    LayoutManager::overlay_hidden(&mut reactor, 0, Ok(()));
    assert!(matches!(
        LayoutManager::plan_overlay(&reactor, 0, screen),
        OverlayPlan::Hide { operations } if operations.is_empty()
    ));
}

#[test]
fn workspaces_of_all_displays_are_told() {
    let mut reactor = reactor();
    let wid = WindowId::new(1, 1);
    let hidden = WindowId::new(1, 2);
    let manager = reactor.layout_manager.layout_engine.virtual_workspace_manager_mut();
    let listed = manager.list_workspaces(0);
    manager.assign_window_to_workspace(0, wid, listed[0].0);
    manager.assign_window_to_workspace(0, hidden, listed[1].0);
    let mut known = VecMap::new();
    known.insert(wid, data(wid, "shown"));
    known.insert(hidden, data(hidden, "hidden"));
    let place = frame(4.0, 4.0, 8.0, 8.0);
    let mut predictions = VecMap::new();
    predictions.insert(listed[0].0, vec![(wid, place)]);
    predictions.insert(listed[1].0, vec![(hidden, frame(0.0, 0.0, 1.0, 1.0)), (hidden, place)]);
    let told = reactor.handle_workspace_query(&known, &predictions).workspaces;
    assert_eq!(told.len(), 8);
    for (i, workspace) in told.iter().enumerate() {
        assert_eq!(workspace.index, i);
        assert_eq!(workspace.display, i / 4);
        assert_eq!(workspace.is_active, i % 4 == 0);
        assert_eq!(workspace.window_count, workspace.windows.len());
    }
    assert_eq!(told[0].id, "VirtualWorkspaceId(1v1)");
    assert_eq!(told[5].name, "Workspace 2");
    assert_eq!(told[0].windows[0].frame, frame(1.0, 1.0, 2.0, 2.0));
    assert_eq!(told[1].windows[0].frame, place);
    assert_eq!(told[1].windows[0].title, "hidden");
    let again = reactor.handle_workspace_query(&known, &predictions).workspaces;
    assert_eq!(again.len(), 8);
    let manager = reactor.layout_manager.layout_engine.virtual_workspace_manager_mut();
    for workspace in &again {
        let (display, id) = manager.workspace_by_global_index(workspace.index).unwrap();
        assert_eq!(display, workspace.display);
        assert_eq!(id.to_debug_string(), workspace.id);
    }
}

#[test]
fn windows_are_told_by_space() {
    let mut reactor = reactor();
    let (a, b) = (WindowId::new(1, 1), WindowId::new(1, 2));
    add(&mut reactor, a, 5);
    add(&mut reactor, b, 6);
    let manager = reactor.layout_manager.layout_engine.virtual_workspace_manager_mut();
    let first = manager.list_workspaces(0)[0].0;
    let second = manager.list_workspaces(1)[0].0;
    manager.assign_window_to_workspace(0, a, first);
    manager.assign_window_to_workspace(1, b, second);
    let mut known = VecMap::new();
    known.insert(a, data(a, "a"));
    known.insert(b, data(b, "b"));
    assert_eq!(reactor.handle_windows_query(None, &known)[0].id, a);
    assert_eq!(reactor.handle_windows_query(Some(SpaceId::new(20)), &known)[0].id, b);
    assert!(reactor.handle_windows_query(Some(SpaceId::new(99)), &known).is_empty());
    reactor.space_manager.screens[0].space = None;
    assert_eq!(reactor.handle_windows_query(None, &known).len(), 2);
    assert_eq!(reactor.handle_window_info_query(b, &known).unwrap().title, "b");
    assert!(reactor.handle_window_info_query(WindowId::new(9, 9), &known).is_none());
}

#[test]
fn applications_are_told_with_their_windows() {
    let mut reactor = reactor();
    add(&mut reactor, WindowId::new(1, 1), 5);
    add(&mut reactor, WindowId::new(1, 2), 6);
    add(&mut reactor, WindowId::new(2, 1), 7);
    reactor.app_manager.apps.insert(
        2,
        AppState {
            info: AppInfo { bundle_id: None, localized_name: None },
            handle: AppThreadHandle { id: 200 },
        },
    );
    reactor.main_window_tracker_manager.main_window_tracker.main_window =
        Some(WindowId::new(2, 1));
    let told = reactor.handle_applications_query();
    let one = told.iter().find(|app| app.pid == 1).unwrap();
    let two = told.iter().find(|app| app.pid == 2).unwrap();
    assert_eq!((one.name.as_str(), one.window_count, one.is_frontmost), ("One", 2, false));
    assert_eq!(one.bundle_id, Some("com.example.one".to_string()));
    assert_eq!((two.name.as_str(), two.window_count, two.is_frontmost), ("Unknown", 1, true));
}

#[test]
fn layout_state_parts_floating_from_tiled() {
    let mut reactor = reactor();
    let (a, b) = (WindowId::new(1, 1), WindowId::new(1, 2));
    assert!(reactor.handle_layout_state_query(10).is_none());
    let manager = reactor.layout_manager.layout_engine.virtual_workspace_manager_mut();
    let first = manager.list_workspaces(0)[0].0;
    manager.assign_window_to_workspace(0, a, first);
    manager.assign_window_to_workspace(0, b, first);
    reactor.layout_manager.layout_engine.set_window_floating(b, true);
    reactor.main_window_tracker_manager.main_window_tracker.main_window = Some(a);
    let told = reactor.handle_layout_state_query(10).unwrap();
    assert_eq!(told.space_id, 10);
    assert_eq!(told.mode, "tiling");
    assert_eq!(told.floating_windows, vec![b]);
    assert_eq!(told.tiled_windows, vec![a]);
    assert_eq!(told.focused_window, Some(a));
    assert!(reactor.handle_layout_state_query(0).is_none());
    assert!(reactor.handle_layout_state_query(11).is_none());
}

#[test]
fn questions_get_their_answers() {
    let mut reactor = reactor();
    let known = VecMap::new();
    let predictions = VecMap::new();
    assert!(matches!(
        reactor.handle_query(Query::Metrics, &known, &predictions),
        Some(QueryAnswer::Metrics(m))
            if m.workspaces == 0 && m.screens == 2 && m.applications == 1 && m.windows_managed == 0
    ));
    assert!(matches!(
        reactor.handle_query(Query::Workspaces, &known, &predictions),
        Some(QueryAnswer::Workspaces(told)) if told.workspaces.len() == 8
    ));
    match reactor.handle_query(Query::Metrics, &known, &predictions) {
        Some(QueryAnswer::Metrics(m)) => {
            assert_eq!(m.workspaces, 8);
            assert!(m.workspace_stats.contains(&("VirtualWorkspaceId(8v1)".to_string(), 0)));
        }
        _ => panic!("metrics were asked for"),
    }
    assert!(matches!(
        reactor.handle_query(Query::Windows { space_id: None }, &known, &predictions),
        Some(QueryAnswer::Windows(told)) if told.is_empty()
    ));
    assert!(matches!(
        reactor.handle_query(
            Query::WindowInfo { window_id: WindowId::new(1, 1) },
            &known,
            &predictions
        ),
        Some(QueryAnswer::WindowInfo(None))
    ));
    assert!(matches!(
        reactor.handle_query(Query::Applications, &known, &predictions),
        Some(QueryAnswer::Applications(told)) if told.len() == 1
    ));
    assert!(matches!(
        reactor.handle_query(Query::LayoutState { space_id: 20 }, &known, &predictions),
        Some(QueryAnswer::LayoutState(Some(_)))
    ));
    assert!(reactor.handle_query(Query::Other, &known, &predictions).is_none());
}

#[test]
fn menu_bar_is_told_of_the_active_space() {
    let mut reactor = reactor();
    let known = VecMap::new();
    let predictions = VecMap::new();
    assert!(reactor.maybe_send_menu_update(None, &known, &predictions).is_none());
    reactor.menu_manager.menu_tx = Some(Channel { id: 8 });
    let update = reactor.maybe_send_menu_update(None, &known, &predictions).unwrap();
    assert_eq!(update.active_space, SpaceId::new(10));
    assert_eq!(update.workspaces.len(), 8);
    assert_eq!(update.active_workspace.unwrap().to_string(), "00000011");
    let update =
        reactor.maybe_send_menu_update(Some(SpaceId::new(20)), &known, &predictions).unwrap();
    assert_eq!(update.active_space, SpaceId::new(20));
    assert_eq!(update.active_workspace.unwrap().to_string(), "00000051");
    reactor.space_manager.screens[0].space = None;
    assert!(reactor.maybe_send_menu_update(None, &known, &predictions).is_none());
}

#[test]
fn snapshot_holds_every_managed_window() {
    let mut reactor = reactor();
    let (a, b, c) = (WindowId::new(1, 1), WindowId::new(1, 2), WindowId::new(1, 3));
    for (i, wid) in [a, b, c].into_iter().enumerate() {
        add(&mut reactor, wid, 5 + i as u32);
    }
    let place = frame(9.0, 9.0, 90.0, 90.0);
    let manager = reactor.layout_manager.layout_engine.virtual_workspace_manager_mut();
    let first = manager.list_workspaces(0)[0].0;
    manager.assign_window_to_workspace(0, a, first);
    manager.set_last_focused_window(0, first, Some(a));
    manager.store_floating_position(0, a, place);
    let elsewhere = manager.list_workspaces(5)[0].0;
    manager.assign_window_to_workspace(5, b, elsewhere);
    let mut known = VecMap::new();
    known.insert(a, data(a, "a"));
    reactor.space_manager.screens[1].space = None;
    let held = reactor.serialize_state(&known);
    assert_eq!(held.total_workspaces, 8);
    assert_eq!(held.total_windows, 2);
    assert_eq!(held.active_spaces, 2);
    assert_eq!(held.workspace_window_counts.len(), 8);
    assert_eq!((held.apps, held.managed_windows, held.screens), (1, 3, 2));
    assert_eq!((held.window_server_info, held.visible_window_server_ids), (0, 0));
    assert_eq!(held.spaces.len(), 1);
    assert_eq!(held.spaces[0].space, 10);
    let workspace = &held.spaces[0].workspaces[0];
    assert_eq!((workspace.id.as_str(), workspace.id_num), ("00000011", 11));
    assert_eq!(workspace.name, "Workspace 1");
    assert!(workspace.is_active);
    assert_eq!(workspace.last_focused, Some(a));
    assert_eq!(workspace.floating_positions, vec![(a, place)]);
    assert_eq!(workspace.windows[0].id, a);
    assert_eq!(workspace.windows[0].data.as_ref().unwrap().title, "a");
    assert_eq!(held.window_to_workspace.len(), 1);
    assert_eq!(held.window_to_workspace[0].window.id, a);
    assert_eq!(held.window_to_workspace[0].workspace, "00000011");
    let mut rest: Vec<_> = held.known_managed_windows.iter().map(|w| w.id).collect();
    rest.sort_by_key(|w| w.idx);
    assert_eq!(rest, vec![b, c]);
    assert!(held.known_managed_windows[0].data.is_none());
}

#[test]
fn snapshot_leaves_the_workspaces_consistent() {
    let mut reactor = reactor();
    let wid = WindowId::new(1, 1);
    let manager = reactor.layout_manager.layout_engine.virtual_workspace_manager_mut();
    let second = manager.list_workspaces(0)[1].0;
    manager.assign_window_to_workspace(0, wid, second);
    reactor.serialize_state(&VecMap::new());
    let manager = reactor.layout_manager.layout_engine.virtual_workspace_manager();
    for display in 0..2 {
        let ids = manager.ids(display);
        assert_eq!(ids.len(), 4);
        assert_eq!(manager.active_workspace(display), Some(ids[0]));
        for id in ids {
            let workspace = manager.workspace_info(display, id).unwrap();
            assert_eq!(workspace.contains_window(wid), id == second);
        }
    }
    assert_eq!(manager.workspace_for_window(0, wid), Some(second));
    assert_eq!(manager.get_stats().total_workspaces, 8);
}

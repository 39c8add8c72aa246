use rift_workspaces::common::config::{
    AppWorkspaceRule, VirtualWorkspaceSettings, WorkspaceDefinition, WorkspaceSelector,
};
use rift_workspaces::model::geometry::Frame;
use rift_workspaces::model::ids::{DisplayId, SpaceId, VirtualWorkspaceId, WindowId};
use rift_workspaces::model::manager_model::Direction;
use rift_workspaces::model::virtual_workspace::VirtualWorkspaceManager;
use rift_workspaces::model::workspace::{FloatingWindowPositions, WorkspaceError};

fn frame(x: f64, y: f64, width: f64, height: f64) -> Frame {
    Frame {
        x: x.to_bits(),
        y: y.to_bits(),
        width: width.to_bits(),
        height: height.to_bits(),
    }
}

fn rule(app_id: &str) -> AppWorkspaceRule {
    AppWorkspaceRule {
        app_id: Some(app_id.to_string()),
        workspace: None,
        floating: false,
        app_name: None,
        title_regex: None,
        title_substring: None,
        ax_role: None,
        ax_subrole: None,
    }
}

fn names(manager: &mut VirtualWorkspaceManager, display: DisplayId) -> Vec<String> {
    manager.list_workspaces(display).into_iter().map(|(_, name)| name).collect()
}

#[test]
fn test_virtual_workspace_creation() {
    let mut manager = VirtualWorkspaceManager::new();

    let display = 0usize;
    assert_eq!(
        manager.list_workspaces(display).len(),
        manager.workspaces_by_display.get(&display).map(|v| v.len()).unwrap_or(0)
    );

    let ws_id = manager.create_workspace(display, Some("Test Workspace".to_string())).unwrap();
    assert!(
        manager
            .list_workspaces(display)
            .iter()
            .any(|(id, name)| *id == ws_id && name == "Test Workspace")
    );

    let workspace = manager.workspace_info(display, ws_id).unwrap();
    assert_eq!(workspace.name, "Test Workspace");
}

#[test]
fn test_window_assignment() {
    let mut manager = VirtualWorkspaceManager::new();
    let display = 0usize;
    let ws1_id = manager.create_workspace(display, Some("WS1".to_string())).unwrap();
    let ws2_id = manager.create_workspace(display, Some("WS2".to_string())).unwrap();

    let window1 = WindowId::new(1, 1);
    let window2 = WindowId::new(1, 2);

    assert!(manager.assign_window_to_workspace(display, window1, ws1_id));
    assert!(manager.assign_window_to_workspace(display, window2, ws2_id));

    assert_eq!(manager.workspace_for_window(display, window1), Some(ws1_id));
    assert_eq!(manager.workspace_for_window(display, window2), Some(ws2_id));

    let ws1 = manager.workspace_info(display, ws1_id).unwrap();
    let ws2 = manager.workspace_info(display, ws2_id).unwrap();

    assert!(ws1.contains_window(window1));
    assert!(!ws1.contains_window(window2));
    assert!(ws2.contains_window(window2));
    assert!(!ws2.contains_window(window1));
}

#[test]
fn test_active_workspace_switching() {
    let mut manager = VirtualWorkspaceManager::new();
    let display = 0usize;
    let ws1_id = manager.create_workspace(display, Some("WS1".to_string())).unwrap();
    let ws2_id = manager.create_workspace(display, Some("WS2".to_string())).unwrap();

    assert!(manager.set_active_workspace(display, ws1_id));
    assert_eq!(manager.active_workspace(display), Some(ws1_id));

    assert!(manager.set_active_workspace(display, ws2_id));
    assert_eq!(manager.active_workspace(display), Some(ws2_id));
}

#[test]
fn test_window_visibility() {
    fn is_window_visible(
        wm: &VirtualWorkspaceManager,
        window_id: WindowId,
        display: DisplayId,
    ) -> bool {
        let window_workspace = wm.workspace_for_window(display, window_id);
        let active_workspace = wm.active_workspace(display);

        match (window_workspace, active_workspace) {
            (Some(window_ws), Some(active_ws)) => window_ws == active_ws,
            _ => true,
        }
    }
    let mut manager = VirtualWorkspaceManager::new();
    let display = 0usize;
    let ws1_id = manager.create_workspace(display, Some("WS1".to_string())).unwrap();
    let ws2_id = manager.create_workspace(display, Some("WS2".to_string())).unwrap();
    let window1 = WindowId::new(1, 1);
    let window2 = WindowId::new(1, 2);

    manager.set_active_workspace(display, ws1_id);
    manager.assign_window_to_workspace(display, window1, ws1_id);
    manager.assign_window_to_workspace(display, window2, ws2_id);

    assert!(is_window_visible(&manager, window1, display));
    assert!(!is_window_visible(&manager, window2, display));

    manager.set_active_workspace(display, ws2_id);
    assert!(!is_window_visible(&manager, window1, display));
    assert!(is_window_visible(&manager, window2, display));
}

#[test]
fn test_workspace_navigation() {
    let mut manager = VirtualWorkspaceManager::new();
    let display = 0usize;
    let ws1_id = manager.create_workspace(display, Some("WS1".to_string())).unwrap();
    let ws2_id = manager.create_workspace(display, Some("WS2".to_string())).unwrap();
    let ws3_id = manager.create_workspace(display, Some("WS3".to_string())).unwrap();

    assert_eq!(manager.next_workspace(display, ws1_id, None), Some(ws2_id));
    assert_eq!(manager.next_workspace(display, ws2_id, None), Some(ws3_id));

    assert_eq!(manager.prev_workspace(display, ws2_id, None), Some(ws1_id));
    assert_eq!(manager.prev_workspace(display, ws3_id, None), Some(ws2_id));
}

#[test]
fn test_app_rule_floating_state_persists() {
    let mut settings = VirtualWorkspaceSettings::default();
    settings.app_rules = vec![AppWorkspaceRule {
        app_id: Some("com.example.test".to_string()),
        workspace: None,
        floating: true,
        app_name: None,
        title_regex: None,
        title_substring: None,
        ax_role: None,
        ax_subrole: None,
    }];
    let mut manager = VirtualWorkspaceManager::new_with_config(&settings);
    let display: DisplayId = 1;
    let window = WindowId::new(42, 7);

    let (_, should_float) = manager
        .assign_window_with_app_info(
            window,
            display,
            Some("com.example.test"),
            None,
            None,
            None,
            None,
        )
        .unwrap();
    assert!(should_float);
    assert_eq!(manager.window_rule_floating.get(&(display, window)), Some(&true));

    let (_, still_floats) = manager
        .assign_window_with_app_info(
            window,
            display,
            Some("com.example.test"),
            None,
            None,
            None,
            None,
        )
        .unwrap();
    assert!(still_floats);

    manager.remove_window(window);
    assert!(!manager.window_rule_floating.contains_key(&(display, window)));

    let (_, floats_again) = manager
        .assign_window_with_app_info(
            window,
            display,
            Some("com.example.test"),
            None,
            None,
            None,
            None,
        )
        .unwrap();
    assert!(floats_again);
}

#[test]
fn default_settings_give_four_numbered_workspaces() {
    let mut manager = VirtualWorkspaceManager::new();
    assert_eq!(
        names(&mut manager, 0),
        vec!["Workspace 1", "Workspace 2", "Workspace 3", "Workspace 4"]
    );
    let listed = manager.list_workspaces(0);
    assert_eq!(manager.active_workspace(0), Some(listed[0].0));
    assert_eq!(manager.last_workspace(0), None);
    assert!(!manager.workspace_auto_back_and_forth());
}

#[test]
fn named_workspaces_come_first_and_the_rest_are_numbered() {
    let mut settings = VirtualWorkspaceSettings::default();
    settings.default_workspace_count = 3;
    settings.workspace_names = vec!["mail".to_string(), "code".to_string()];
    settings.workspace_auto_back_and_forth = true;
    let mut manager = VirtualWorkspaceManager::new_with_config(&settings);
    assert_eq!(names(&mut manager, 2), vec!["mail", "code", "Workspace 3"]);
    assert!(manager.workspace_auto_back_and_forth());
}

#[test]
fn count_of_workspaces_is_kept_within_one_and_the_limit() {
    let mut settings = VirtualWorkspaceSettings::default();
    settings.default_workspace_count = 0;
    let mut manager = VirtualWorkspaceManager::new_with_config(&settings);
    assert_eq!(names(&mut manager, 0), vec!["Workspace 1"]);
    settings.default_workspace_count = 100;
    let mut manager = VirtualWorkspaceManager::new_with_config(&settings);
    assert_eq!(manager.list_workspaces(0).len(), 32);
}

#[test]
fn definitions_are_made_on_their_displays() {
    let mut settings = VirtualWorkspaceSettings::default();
    settings.workspaces = vec![
        WorkspaceDefinition { name: "everywhere".to_string(), display: None },
        WorkspaceDefinition { name: "left".to_string(), display: Some(0) },
        WorkspaceDefinition { name: "right".to_string(), display: Some(1) },
    ];
    let mut manager = VirtualWorkspaceManager::new_with_config(&settings);
    assert_eq!(names(&mut manager, 0), vec!["everywhere", "left"]);
    assert_eq!(names(&mut manager, 1), vec!["everywhere", "right"]);
    settings.workspaces = vec![WorkspaceDefinition { name: "left".to_string(), display: Some(0) }];
    let mut manager = VirtualWorkspaceManager::new_with_config(&settings);
    assert_eq!(names(&mut manager, 5), vec!["Workspace 1"]);
    settings.workspaces = (0..40)
        .map(|i| WorkspaceDefinition { name: format!("w{}", i), display: None })
        .collect();
    let mut manager = VirtualWorkspaceManager::new_with_config(&settings);
    assert_eq!(manager.list_workspaces(0).len(), 32);
}

#[test]
fn new_workspace_without_a_name_takes_the_next_number() {
    let mut manager = VirtualWorkspaceManager::new();
    manager.create_workspace(0, None).unwrap();
    manager.create_workspace(0, Some("named".to_string())).unwrap();
    manager.create_workspace(0, None).unwrap();
    let listed = names(&mut manager, 0);
    assert_eq!(listed[4..].to_vec(), vec!["Workspace 1", "named", "Workspace 2"]);
}

#[test]
fn no_more_workspaces_than_the_limit_are_created() {
    let mut manager = VirtualWorkspaceManager::new();
    for _ in 0..28 {
        manager.create_workspace(3, None).unwrap();
    }
    assert_eq!(
        manager.create_workspace(3, None),
        Err(WorkspaceError::InconsistentState(
            "Maximum workspace limit (32) reached for display 3".to_string()
        ))
    );
    assert_eq!(manager.list_workspaces(3).len(), 32);
}

#[test]
fn space_of_a_display_is_recorded_on_its_workspaces() {
    let mut manager = VirtualWorkspaceManager::new();
    let listed = manager.list_workspaces(1);
    assert_eq!(manager.get_space_for_display(1), None);
    manager.update_display_space_mapping(1, SpaceId::new(7));
    assert_eq!(manager.get_space_for_display(1), Some(SpaceId::new(7)));
    assert_eq!(manager.get_display_for_space(SpaceId::new(7)), Some(1));
    assert_eq!(manager.get_display_for_space(SpaceId::new(8)), None);
    assert_eq!(manager.workspace_info(1, listed[0].0).unwrap().space, Some(SpaceId::new(7)));
    let made = manager.create_workspace(1, None).unwrap();
    assert_eq!(manager.workspace_info(1, made).unwrap().space, Some(SpaceId::new(7)));
}

#[test]
fn switching_goes_back_and_forth_between_two() {
    let mut manager = VirtualWorkspaceManager::new();
    let listed = manager.list_workspaces(0);
    let (a, b) = (listed[0].0, listed[2].0);
    assert!(manager.set_active_workspace(0, b));
    assert_eq!(manager.last_workspace(0), Some(a));
    let last = manager.last_workspace(0).unwrap();
    assert!(manager.set_active_workspace(0, last));
    assert_eq!(manager.active_workspace(0), Some(a));
    assert_eq!(manager.last_workspace(0), Some(b));
}

#[test]
fn foreign_and_unknown_workspaces_are_refused() {
    let mut manager = VirtualWorkspaceManager::new();
    let own = manager.list_workspaces(0)[0].0;
    let foreign = manager.list_workspaces(1)[0].0;
    let window = WindowId::new(5, 5);
    for id in [foreign, VirtualWorkspaceId::null()] {
        assert!(!manager.set_active_workspace(0, id));
        assert!(!manager.assign_window_to_workspace(0, window, id));
        assert!(!manager.rename_workspace(0, id, "x".to_string()));
        assert!(manager.workspace_info(0, id).is_none());
        assert_eq!(manager.last_focused_window(0, id), None);
        assert!(manager.windows_in_workspace(0, id).is_empty());
    }
    assert_eq!(manager.active_workspace(0), Some(own));
    assert_eq!(manager.workspace_for_window(0, window), None);
}

#[test]
fn navigation_wraps_around_and_back_undoes_next() {
    let mut manager = VirtualWorkspaceManager::new();
    let ids: Vec<_> = manager.list_workspaces(0).into_iter().map(|(id, _)| id).collect();
    assert_eq!(manager.next_workspace(0, ids[3], None), Some(ids[0]));
    assert_eq!(manager.prev_workspace(0, ids[0], Some(false)), Some(ids[3]));
    for id in &ids {
        let next = manager.next_workspace(0, *id, None).unwrap();
        assert_eq!(manager.prev_workspace(0, next, None), Some(*id));
    }
    assert_eq!(manager.next_workspace(9, ids[0], None), None);
    assert_eq!(manager.next_workspace(0, VirtualWorkspaceId::null(), None), None);
}

#[test]
fn navigation_skips_empty_workspaces() {
    let mut manager = VirtualWorkspaceManager::new();
    let ids: Vec<_> = manager.list_workspaces(0).into_iter().map(|(id, _)| id).collect();
    assert_eq!(manager.next_workspace(0, ids[0], Some(true)), None);
    manager.assign_window_to_workspace(0, WindowId::new(1, 1), ids[1]);
    manager.assign_window_to_workspace(0, WindowId::new(1, 2), ids[3]);
    assert_eq!(manager.next_workspace(0, ids[1], Some(true)), Some(ids[3]));
    assert_eq!(manager.next_workspace(0, ids[3], Some(true)), Some(ids[1]));
    assert_eq!(manager.next_workspace(0, ids[2], Some(true)), Some(ids[3]));
    assert_eq!(manager.prev_workspace(0, ids[2], Some(true)), Some(ids[1]));
    assert_eq!(manager.prev_workspace(0, ids[0], Some(true)), Some(ids[3]));
}

#[test]
fn directions_step_round_a_ring() {
    assert_eq!(Direction::Right.step(2, 3), 0);
    assert_eq!(Direction::Down.step(0, 3), 1);
    assert_eq!(Direction::Left.step(0, 3), 2);
    assert_eq!(Direction::Up.step(2, 3), 1);
}

#[test]
fn moving_a_window_takes_it_out_of_its_workspace() {
    let mut manager = VirtualWorkspaceManager::new();
    let here = manager.list_workspaces(0);
    let there = manager.list_workspaces(1);
    let window = WindowId::new(3, 4);
    assert!(manager.assign_window_to_workspace(0, window, here[0].0));
    manager.set_last_focused_window(0, here[0].0, Some(window));
    assert_eq!(manager.last_focused_window(0, here[0].0), Some(window));
    assert!(manager.assign_window_to_workspace(1, window, there[1].0));
    assert_eq!(manager.workspace_for_window(0, window), None);
    assert_eq!(manager.workspace_for_window(1, window), Some(there[1].0));
    assert_eq!(manager.workspace_info(0, here[0].0).unwrap().window_count(), 0);
    assert_eq!(manager.last_focused_window(0, here[0].0), None);
    assert_eq!(manager.windows_in_workspace(1, there[1].0), vec![window]);
}

#[test]
fn windows_of_shown_and_other_workspaces_are_told_apart() {
    let mut manager = VirtualWorkspaceManager::new();
    let listed = manager.list_workspaces(0);
    let (shown, other) = (WindowId::new(1, 1), WindowId::new(2, 1));
    manager.assign_window_to_workspace(0, shown, listed[0].0);
    manager.assign_window_to_workspace(0, other, listed[1].0);
    assert_eq!(manager.windows_in_active_workspace(0), vec![shown]);
    assert_eq!(manager.windows_in_inactive_workspaces(0), vec![other]);
    assert!(manager.windows_in_active_workspace(4).is_empty());
    assert!(manager.windows_in_inactive_workspaces(4).is_empty());
}

#[test]
fn windows_of_a_process_are_removed_together() {
    let mut manager = VirtualWorkspaceManager::new();
    let listed = manager.list_workspaces(0);
    manager.assign_window_to_workspace(0, WindowId::new(1, 1), listed[0].0);
    manager.assign_window_to_workspace(0, WindowId::new(1, 2), listed[1].0);
    manager.assign_window_to_workspace(0, WindowId::new(2, 1), listed[1].0);
    manager.remove_windows_for_app(1);
    assert_eq!(manager.workspace_for_window(0, WindowId::new(1, 1)), None);
    assert_eq!(manager.workspace_for_window(0, WindowId::new(1, 2)), None);
    assert_eq!(manager.workspace_for_window(0, WindowId::new(2, 1)), Some(listed[1].0));
    let stats = manager.get_stats();
    assert_eq!(stats.total_windows, 1);
    assert_eq!(stats.total_workspaces, 4);
    assert_eq!(stats.active_spaces, 1);
    assert_eq!(stats.workspace_window_counts.get(&listed[1].0), Some(&1));
    assert_eq!(stats.workspace_window_counts.get(&listed[0].0), Some(&0));
}

#[test]
fn floating_positions_are_kept_for_the_shown_workspace() {
    let mut manager = VirtualWorkspaceManager::new();
    let listed = manager.list_workspaces(0);
    let (a, b) = (WindowId::new(1, 1), WindowId::new(2, 1));
    let place = frame(1.0, 2.0, 300.0, 200.0);
    let other = frame(5.0, 6.0, 30.0, 20.0);
    manager.store_floating_position(9, a, place);
    manager.store_floating_position(0, a, place);
    assert_eq!(manager.get_floating_position(0, listed[0].0, a), Some(place));
    assert_eq!(manager.get_floating_position(0, listed[1].0, a), None);
    manager.store_current_floating_positions(0, &[(b, place), (b, other)]);
    assert_eq!(manager.get_floating_position(0, listed[0].0, b), Some(other));
    assert_eq!(manager.get_workspace_floating_positions(0, listed[0].0).len(), 2);
    assert!(manager.get_workspace_floating_positions(0, listed[3].0).is_empty());
    manager.remove_floating_position(a);
    assert_eq!(manager.get_workspace_floating_positions(0, listed[0].0), vec![(b, other)]);
    manager.remove_app_floating_positions(2);
    assert!(manager.get_workspace_floating_positions(0, listed[0].0).is_empty());
}

#[test]
fn positions_of_one_workspace() {
    let mut positions = FloatingWindowPositions::default();
    let window = WindowId::new(1, 1);
    let place = frame(0.0, 0.0, 10.0, 10.0);
    positions.store_position(window, place);
    assert!(positions.contains_window(window));
    assert_eq!(positions.windows(), vec![window]);
    assert_eq!(positions.remove_position(window), Some(place));
    assert_eq!(positions.remove_position(window), None);
    positions.store_position(window, place);
    positions.remove_app_windows(2);
    assert_eq!(positions.get_position(window), Some(place));
    positions.clear();
    assert_eq!(positions.get_position(window), None);
}

#[test]
fn global_index_counts_through_the_displays() {
    let mut manager = VirtualWorkspaceManager::new();
    let second = manager.list_workspaces(7);
    let first = manager.list_workspaces(2);
    assert_eq!(manager.workspace_by_global_index(0), Some((2, first[0].0)));
    assert_eq!(manager.workspace_by_global_index(3), Some((2, first[3].0)));
    assert_eq!(manager.workspace_by_global_index(4), Some((7, second[0].0)));
    assert_eq!(manager.workspace_by_global_index(7), Some((7, second[3].0)));
    assert_eq!(manager.workspace_by_global_index(8), None);
}

#[test]
fn renamed_workspace_keeps_its_place() {
    let mut manager = VirtualWorkspaceManager::new();
    let listed = manager.list_workspaces(0);
    assert!(manager.rename_workspace(0, listed[1].0, "music".to_string()));
    assert_eq!(
        names(&mut manager, 0),
        vec!["Workspace 1", "music", "Workspace 3", "Workspace 4"]
    );
}

#[test]
fn new_windows_go_to_the_shown_workspace() {
    let mut manager = VirtualWorkspaceManager::new();
    let listed = manager.list_workspaces(0);
    manager.set_active_workspace(0, listed[2].0);
    assert_eq!(manager.auto_assign_window(WindowId::new(1, 1), 0), Ok(listed[2].0));
    assert_eq!(manager.get_default_workspace(0), Ok(listed[2].0));
}

#[test]
fn rules_send_windows_to_workspaces_by_index_and_name() {
    let mut by_index = rule("a");
    by_index.workspace = Some(WorkspaceSelector::Index(2));
    let mut by_name = rule("b");
    by_name.workspace = Some(WorkspaceSelector::Name("Workspace 4".to_string()));
    by_name.floating = true;
    let mut too_far = rule("c");
    too_far.workspace = Some(WorkspaceSelector::Index(40));
    let mut unknown = rule("d");
    unknown.workspace = Some(WorkspaceSelector::Name("nowhere".to_string()));
    let mut manager =
        VirtualWorkspaceManager::new_with_rules(vec![by_index, by_name, too_far, unknown]);
    let listed = manager.list_workspaces(0);
    let mut place = |app: Option<&str>, idx: u32| {
        manager
            .assign_window_with_app_info(WindowId::new(1, idx), 0, app, None, None, None, None)
            .unwrap()
    };
    assert_eq!(place(Some("a"), 1), (listed[2].0, false));
    assert_eq!(place(Some("b"), 2), (listed[3].0, true));
    assert_eq!(place(Some("c"), 3), (listed[0].0, false));
    assert_eq!(place(Some("d"), 4), (listed[0].0, false));
    assert_eq!(place(Some("e"), 5), (listed[0].0, false));
    assert_eq!(place(None, 6), (listed[0].0, false));
}

#[test]
fn assigned_window_keeps_its_place_whatever_rule_comes_later() {
    let mut manager = VirtualWorkspaceManager::new();
    let listed = manager.list_workspaces(0);
    let window = WindowId::new(1, 1);
    let mut first = rule("a");
    first.workspace = Some(WorkspaceSelector::Index(1));
    first.floating = true;
    let mut second = rule("a");
    second.workspace = Some(WorkspaceSelector::Index(3));
    assert_eq!(
        manager.assign_window_by_rule(window, 0, Some(first)),
        Ok((listed[1].0, true))
    );
    assert_eq!(
        manager.assign_window_by_rule(window, 0, Some(second)),
        Ok((listed[1].0, true))
    );
    assert_eq!(manager.assign_window_by_rule(window, 0, None), Ok((listed[1].0, true)));
}

#[test]
fn inconsistent_records_are_reported() {
    let mut manager = VirtualWorkspaceManager::new();
    let window = WindowId::new(1, 1);
    manager.workspaces_by_display.insert(0, Vec::new());
    assert_eq!(
        manager.assign_window_with_app_info(window, 0, None, None, None, None, None),
        Err(WorkspaceError::NoWorkspacesAvailable)
    );
    assert_eq!(
        manager.auto_assign_window(window, 0),
        Err(WorkspaceError::InconsistentState("No workspaces for display".to_string()))
    );
    let foreign = manager.list_workspaces(1)[0].0;
    manager.workspaces_by_display.insert(0, vec![foreign]);
    assert_eq!(
        manager.get_default_workspace(0),
        Err(WorkspaceError::InconsistentState(
            "Failed to set default workspace as active".to_string()
        ))
    );
    manager.active_workspace_per_display.insert(0, (None, foreign));
    assert_eq!(manager.auto_assign_window(window, 0), Err(WorkspaceError::AssignmentFailed));
    manager.active_workspace_per_display.insert(1, (None, VirtualWorkspaceId::null()));
    assert_eq!(manager.auto_assign_window(window, 1), Ok(foreign));
}

#[test]
fn ids_are_distinct_and_shown_as_eight_digits() {
    let mut manager = VirtualWorkspaceManager::new();
    let listed = manager.list_workspaces(0);
    assert_eq!(listed[0].0.to_debug_string(), "VirtualWorkspaceId(1v1)");
    assert_eq!(listed[0].0.to_string(), "00000011");
    assert_eq!(listed[3].0.to_debug_string(), "VirtualWorkspaceId(4v1)");
    assert_eq!(listed[3].0.to_string(), "00000041");
    assert_eq!(VirtualWorkspaceId::null().to_debug_string(), "VirtualWorkspaceId(null)");
    assert_eq!(VirtualWorkspaceId::null().to_string(), "VirtualWorkspaceId(null)");
    assert!(listed[0].0 != listed[1].0);
}

#[test]
fn errors_about_ids_and_indices_hold_them() {
    let id = VirtualWorkspaceId::null();
    assert!(WorkspaceError::InvalidWorkspaceId(id) == WorkspaceError::InvalidWorkspaceId(id));
    assert!(
        WorkspaceError::InvalidWorkspaceIndex(1) != WorkspaceError::InvalidWorkspaceIndex(2)
    );
}

#[test]
fn copies_hold_what_was_copied() {
    let mut manager = VirtualWorkspaceManager::new();
    let listed = manager.list_workspaces(0);
    let window = WindowId::new(1, 1);
    manager.assign_window_to_workspace(0, window, listed[0].0);
    let copy = manager.workspace_info(0, listed[0].0).unwrap().clone();
    assert_eq!((copy.name.as_str(), copy.display), ("Workspace 1", 0));
    assert_eq!(copy.windows(), vec![window]);
    let stats = manager.get_stats().clone();
    assert_eq!(stats.workspace_window_counts.get(&listed[0].0), Some(&1));
    let mut positions = FloatingWindowPositions::default();
    let place = frame(0.0, 0.0, 10.0, 10.0);
    positions.store_position(window, place);
    assert_eq!(positions.clone().get_position(window), Some(place));
}

#[test]
fn ids_and_floating_windows_can_be_asked_for() {
    let mut manager = VirtualWorkspaceManager::new();
    assert!(manager.ids(0).is_empty());
    let listed: Vec<_> = manager.list_workspaces(0).into_iter().map(|(id, _)| id).collect();
    assert_eq!(manager.ids(0), listed);
    let window = WindowId::new(1, 1);
    assert!(!manager.floats_by_rule(0, window));
    let mut floating = rule("a");
    floating.floating = true;
    manager.assign_window_by_rule(window, 0, Some(floating)).unwrap();
    assert!(manager.floats_by_rule(0, window));
    assert!(!manager.floats_by_rule(1, window));
}

#[test]
fn saved_manager_is_restored() {
    let mut manager = VirtualWorkspaceManager::new_with_rules(vec![rule("com.example.test")]);
    let (first, second) = (WindowId::new(1, 1), WindowId::new(2, 1));
    manager.list_workspaces(0);
    manager.list_workspaces(1);
    let made = manager.create_workspace(0, Some("Made".to_string())).unwrap();
    assert!(manager.assign_window_to_workspace(0, first, made));
    assert!(manager.assign_window_to_workspace(1, second, manager.ids(1)[0]));
    manager.set_last_focused_window(0, made, Some(first));
    assert!(manager.set_active_workspace(0, made));
    manager.store_floating_position(0, first, frame(1.0, 2.0, 3.0, 4.0));
    manager.update_display_space_mapping(0, SpaceId::new(7));

    let saved = manager.save();
    assert_eq!(saved.workspaces.len(), 9);
    assert_eq!(saved.workspaces[8].name, "Made");
    assert_eq!(saved.workspaces[8].space, None);
    let restored = VirtualWorkspaceManager::restore(saved).unwrap();

    for display in 0..2 {
        assert_eq!(restored.ids(display), manager.ids(display));
        assert_eq!(restored.active_workspace(display), manager.active_workspace(display));
        for id in manager.ids(display) {
            let (before, after) =
                (manager.workspace_info(display, id), restored.workspace_info(display, id));
            let (before, after) = (before.unwrap(), after.unwrap());
            assert_eq!(after.name, before.name);
            assert_eq!(after.display, display);
            assert_eq!(after.windows(), before.windows());
            assert_eq!(after.last_focused(), before.last_focused());
            assert_eq!(after.space, None);
        }
    }
    assert_eq!(restored.last_workspace(0), manager.last_workspace(0));
    assert_eq!(restored.workspace_for_window(0, first), Some(made));
    assert_eq!(restored.last_focused_window(0, made), Some(first));
    assert_eq!(restored.get_floating_position(0, made, first), Some(frame(1.0, 2.0, 3.0, 4.0)));
    assert_eq!(restored.get_space_for_display(0), None);
}

#[test]
fn restored_manager_has_no_settings() {
    let mut manager = VirtualWorkspaceManager::new();
    manager.list_workspaces(0);
    let mut restored = VirtualWorkspaceManager::restore(manager.save()).unwrap();
    assert!(!restored.workspace_auto_back_and_forth());
    assert_eq!(restored.list_workspaces(0).len(), 4);
    assert!(restored.list_workspaces(1).is_empty());
    assert!(restored.create_workspace(0, None).is_err());
}

#[test]
fn restored_manager_goes_on_numbering() {
    let mut manager = VirtualWorkspaceManager::new();
    manager.list_workspaces(0);
    let mut restored = VirtualWorkspaceManager::restore(manager.save()).unwrap();
    let id = manager.create_workspace(0, None).unwrap();
    let saved = manager.save();
    assert_eq!(saved.workspaces.len(), 5);
    assert!(restored.workspace_info(0, id).is_none());
    restored = VirtualWorkspaceManager::restore(saved).unwrap();
    assert!(restored.workspace_info(0, id).is_some());
}

#[test]
fn numbers_of_keys_make_ids() {
    let mut manager = VirtualWorkspaceManager::new();
    let id = manager.list_workspaces(0)[0].0;
    assert_eq!(id.to_number(), 0x1_0000_0001);
    assert_eq!(VirtualWorkspaceId::from_number(id.to_number()), Some(id));
    assert_eq!(VirtualWorkspaceId::from_number(0x2_0000_0001), None);
    assert_eq!(VirtualWorkspaceId::from_number(0x1_ffff_ffff), Some(VirtualWorkspaceId::null()));
}

use rift_workspaces::model::geometry::Frame;
use rift_workspaces::model::ids::WindowId;
use rift_workspaces::ui::workspace_overlay::{
    OverlayError, OverlayOperation, OverlayWindow, WorkspaceOverlayManager, NORMAL_WINDOW_LEVEL,
    OPAQUE_ALPHA,
};

fn screen() -> Frame {
    Frame {
        x: 0.0f64.to_bits(),
        y: 0.0f64.to_bits(),
        width: 1920.0f64.to_bits(),
        height: 1080.0f64.to_bits(),
    }
}

#[test]
fn overlay_is_made_shown_hidden_and_brought_back() {
    let mut overlays = WorkspaceOverlayManager::new();
    assert_eq!(OPAQUE_ALPHA, 1.0f64.to_bits());
    assert_eq!(
        overlays.show_overlay(0, screen()),
        vec![
            OverlayOperation::Create(screen()),
            OverlayOperation::SetOpaque,
            OverlayOperation::SetAlpha(OPAQUE_ALPHA),
            OverlayOperation::SetLevel(NORMAL_WINDOW_LEVEL),
            OverlayOperation::Draw(None, screen()),
        ]
    );
    let made = OverlayWindow { id: 77 };
    assert_eq!(overlays.record_overlay_shown(0, Ok(made)), Ok(true));
    assert!(overlays.show_overlay(0, screen()).is_empty());
    assert_eq!(overlays.record_overlay_shown(0, Ok(made)), Ok(false));
    assert_eq!(overlays.hide_overlay(0), vec![OverlayOperation::OrderOut(made)]);
    assert_eq!(overlays.record_overlay_hidden(0, Ok(())), Ok(true));
    assert!(overlays.hide_overlay(0).is_empty());
    assert_eq!(overlays.record_overlay_hidden(0, Ok(())), Ok(false));
    assert_eq!(
        overlays.show_overlay(0, screen()),
        vec![
            OverlayOperation::SetShape(made, screen()),
            OverlayOperation::Draw(Some(made), screen()),
        ]
    );
}

#[test]
fn failed_operations_leave_the_overlay_as_it_was() {
    let mut overlays = WorkspaceOverlayManager::new();
    let error = OverlayError { code: 1000 };
    assert_eq!(overlays.record_overlay_shown(0, Err(error)), Err(error));
    assert_eq!(overlays.show_overlay(0, screen()).len(), 5);
    overlays.record_overlay_shown(0, Ok(OverlayWindow { id: 1 })).unwrap();
    assert_eq!(overlays.record_overlay_hidden(0, Err(error)), Err(error));
    assert_eq!(overlays.hide_overlay(0).len(), 1);
}

#[test]
fn overlay_is_ordered_among_windows() {
    let mut overlays = WorkspaceOverlayManager::new();
    assert_eq!(overlays.order_overlay_above(0, 5), None);
    let made = OverlayWindow { id: 9 };
    overlays.record_overlay_shown(0, Ok(made)).unwrap();
    assert_eq!(
        overlays.order_overlay_above(0, 5),
        Some(OverlayOperation::OrderAbove(made, 5))
    );
    assert_eq!(
        overlays.order_overlay_behind(0, 6),
        Some(OverlayOperation::OrderBelow(made, 6))
    );
    overlays.clear_all();
    assert_eq!(overlays.order_overlay_behind(0, 6), None);
}

#[test]
fn removed_overlay_is_made_again() {
    let mut overlays = WorkspaceOverlayManager::new();
    overlays.record_overlay_shown(0, Ok(OverlayWindow { id: 9 })).unwrap();
    assert!(overlays.should_raise_windows(0, vec![WindowId::new(1, 1)]));
    overlays.clear_all();
    assert!(overlays.hide_overlay(0).is_empty());
    assert!(!overlays.should_raise_windows(0, vec![WindowId::new(1, 1)]));
    assert_eq!(
        overlays.show_overlay(0, screen()),
        vec![
            OverlayOperation::Create(screen()),
            OverlayOperation::SetOpaque,
            OverlayOperation::SetAlpha(OPAQUE_ALPHA),
            OverlayOperation::SetLevel(NORMAL_WINDOW_LEVEL),
            OverlayOperation::Draw(None, screen()),
        ]
    );
    let made = OverlayWindow { id: 10 };
    assert_eq!(overlays.record_overlay_shown(0, Ok(made)), Ok(true));
    assert_eq!(
        overlays.order_overlay_behind(0, 6),
        Some(OverlayOperation::OrderBelow(made, 6))
    );
}

#[test]
fn windows_are_raised_only_when_they_are_others() {
    let mut overlays = WorkspaceOverlayManager::new();
    let (a, b) = (WindowId::new(1, 1), WindowId::new(2, 1));
    assert!(!overlays.should_raise_windows(0, vec![]));
    assert!(overlays.should_raise_windows(0, vec![b, a]));
    assert!(!overlays.should_raise_windows(0, vec![a, b]));
    assert!(!overlays.should_raise_windows(0, vec![b, a]));
    assert!(overlays.should_raise_windows(1, vec![a, b]));
    assert!(overlays.should_raise_windows(0, vec![a]));
    assert!(overlays.should_raise_windows(0, vec![]));
    assert!(!overlays.should_raise_windows(0, vec![]));
}

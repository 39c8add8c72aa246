//! Laying the windows out: what is to be computed, what is to be moved, and how the overlays hide
//! the windows of inactive workspaces.
use std::collections::HashMap;
use vstd::prelude::*;
use crate::actor::reactor::managers::{
    AppState, AppThreadHandle, DragManager, LayoutManager, Screen, WindowState,
};
use crate::actor::reactor::state::{RaiseRequest, Reactor, ReactorModel};
use crate::layout_engine::EngineModel;
use crate::model::geometry::Frame;
use crate::model::ids::{pid_t, DisplayId, SpaceId, WindowId};
use crate::ui::workspace_overlay::{
    OverlayError, OverlayOperation, OverlayWindow, WorkspaceOverlayManager,
};

verus! {

/// For each space the frames of its windows.
pub type LayoutResult = Vec<(SpaceId, Vec<(WindowId, Frame)>)>;

/// The bits of the floating-point number 500: the width and height of a window of unknown size.
pub const DEFAULT_WINDOW_EXTENT: u64 = 0x407f_4000_0000_0000;

/// Something to be done with the layout of a space.
#[derive(Debug, Clone, Copy, PartialEq, Eq, Structural)]
pub enum LayoutStep {
    /// Collects the groups of windows on the space, which its screen shows in that frame, and
    /// tells the stack line of them.
    UpdateStackLine { space: SpaceId, frame: Frame },
    /// Puts the windows at once where they belong.
    Instant { space: SpaceId, skip: Option<WindowId> },
    /// Moves the windows to where they belong.
    Animate { space: SpaceId, is_resize: bool, skip: Option<WindowId> },
}

/// A group of windows as the layout describes it.
#[derive(Debug, Clone, Copy, PartialEq, Eq, Structural)]
pub struct GroupContainer {
    pub node_id: u64,
    pub container_kind: u8,
    pub frame: Frame,
    pub total_count: usize,
    pub selected_index: usize,
}

/// A group of windows as the stack line is told of it.
#[derive(Debug, Clone, Copy, PartialEq, Eq, Structural)]
pub struct GroupInfo {
    pub node_id: u64,
    pub space_id: SpaceId,
    pub container_kind: u8,
    pub frame: Frame,
    pub total_count: usize,
    pub selected_index: usize,
}

/// What is to be done with the overlay of a display.
#[derive(Debug)]
pub enum OverlayPlan {
    /// Shows the overlay, over the windows that were moved off the screen and below those that
    /// are to be seen.
    Show { operations: Vec<OverlayOperation>, hidden: Vec<WindowId>, visible: Vec<WindowId> },
    /// Hides the overlay.
    Hide { operations: Vec<OverlayOperation> },
}

/// What follows once an overlay is shown.
#[derive(Debug)]
pub struct OverlayFollowUp {
    pub raise: Option<RaiseRequest>,
    /// Done in order; one that fails does not keep the others from being done.
    pub order: Vec<OverlayOperation>,
}

/// The group with its space.
pub open spec fn told_group(space: SpaceId, g: GroupContainer) -> GroupInfo {
    GroupInfo {
        node_id: g.node_id,
        space_id: space,
        container_kind: g.container_kind,
        frame: g.frame,
        total_count: g.total_count,
        selected_index: g.selected_index,
    }
}

/// The width and height of a window, or a default for a window that is not known.
pub open spec fn known_size(windows: Map<WindowId, WindowState>, wid: WindowId) -> (u64, u64) {
    if windows.contains_key(wid) {
        (windows[wid].frame_monotonic.width, windows[wid].frame_monotonic.height)
    } else {
        (DEFAULT_WINDOW_EXTENT, DEFAULT_WINDOW_EXTENT)
    }
}

/// The screen shows the space.
pub open spec fn shows(space: SpaceId) -> spec_fn((SpaceId, Frame)) -> bool {
    |e: (SpaceId, Frame)| e.0 == space
}

/// The frame of the first screen that shows the space.
pub open spec fn frame_of(screens: Seq<Screen>, space: SpaceId) -> Option<Frame> {
    let shown = crate::actor::reactor::state::visible_screens(screens).filter(shows(space));
    if shown.len() > 0 {
        Some(shown[0].1)
    } else {
        None
    }
}

impl ReactorModel {
    /// The reactor once no window is left alone on account of a drag that has ended.
    pub open spec fn with_none_skipped(self) -> Self {
        ReactorModel { drag: DragManager { skip_layout_for_window: None, ..self.drag }, ..self }
    }

    /// The reactor once the overlay of a display was to be hidden.
    pub open spec fn with_overlay_down(self, display: DisplayId, done: bool) -> Self {
        ReactorModel {
            overlay: if done {
                self.overlay.with_hidden(display).without_raised(display)
            } else {
                self.overlay.without_raised(display)
            },
            ..self
        }
    }

    /// The window that the layout leaves alone.
    pub open spec fn skipped_window(self) -> Option<WindowId> {
        if self.drag.skip_layout_for_window is Some {
            self.drag.skip_layout_for_window
        } else {
            self.drag.drag_swap_manager.dragged
        }
    }

    /// What is to be done with the layout of a space.
    pub open spec fn steps_for(
        self,
        space: SpaceId,
        is_resize: bool,
        is_workspace_switch: bool,
        skip: Option<WindowId>,
    ) -> Seq<LayoutStep> {
        let moved = if is_workspace_switch || self.switching.active_workspace_switch is Some {
            LayoutStep::Instant { space, skip }
        } else {
            LayoutStep::Animate { space, is_resize, skip }
        };
        match frame_of(self.screens, space) {
            Some(frame) if self.config.stack_line_enabled && self.channels.stack_line_tx
                is Some => seq![LayoutStep::UpdateStackLine { space, frame }, moved],
            _ => seq![moved],
        }
    }
}

impl EngineModel {
    /// The windows of the workspace that the display shows and that are on the screen.
    pub open spec fn seen_on(self, display: DisplayId) -> Set<WindowId> {
        match self.workspaces.active_on(display) {
            Some(id) if self.workspaces.owns(display, id) => {
                self.workspaces.workspaces[id].windows.difference(self.offscreen.dom())
            },
            _ => Set::empty(),
        }
    }
}

/// What is planned for the overlay of a display: it is shown exactly when there are windows to
/// hide.
pub open spec fn plans_overlay(
    reactor: ReactorModel,
    display: DisplayId,
    frame: Frame,
    plan: OverlayPlan,
) -> bool {
    let to_hide = reactor.engine.hidden_on(display);
    match plan {
        OverlayPlan::Show { operations, hidden, visible } => {
            &&& to_hide != Set::<WindowId>::empty()
            &&& operations@ == reactor.overlay.show_operations(display, frame)
            &&& crate::common::sequences::enumerates(hidden@, to_hide)
            &&& crate::common::sequences::enumerates(visible@, reactor.engine.seen_on(display))
        },
        OverlayPlan::Hide { operations } => {
            &&& to_hide == Set::<WindowId>::empty()
            &&& operations@ == reactor.overlay.hide_operations(display)
        },
    }
}

/// The numbers that the window server gave to the windows, of those that have one, in order.
pub open spec fn server_numbers(windows: Map<WindowId, WindowState>, wids: Seq<WindowId>) -> Seq<
    u32,
> {
    wids.filter(
        |w: WindowId| windows.contains_key(w) && windows[w].window_server_id is Some,
    ).map_values(|w: WindowId| windows[w].window_server_id->0.id)
}

/// How the overlay is ordered: above each hidden window, then below each that is to be seen.
pub open spec fn order_operations(
    overlay: Option<OverlayWindow>,
    hidden: Seq<u32>,
    visible: Seq<u32>,
) -> Seq<OverlayOperation> {
    match overlay {
        Some(o) => hidden.map_values(|n: u32| OverlayOperation::OrderAbove(o, n))
            + visible.map_values(|n: u32| OverlayOperation::OrderBelow(o, n)),
        None => Seq::empty(),
    }
}

/// The windows of one process, in order.
pub open spec fn windows_of(wids: Seq<WindowId>, pid: pid_t) -> Seq<WindowId> {
    wids.filter(|w: WindowId| w.pid == pid)
}

/// Some of the windows are of that process, and it is known.
pub open spec fn takes_part(wids: Seq<WindowId>, apps: Map<pid_t, AppState>, pid: pid_t) -> bool {
    apps.contains_key(pid) && windows_of(wids, pid).len() > 0
}

/// The request raises the windows of each known application as a group. The order of the groups
/// is left open.
pub open spec fn raises_by_app(
    wids: Seq<WindowId>,
    apps: Map<pid_t, AppState>,
    request: RaiseRequest,
) -> bool {
    let handles = request.app_handles@;
    let groups = request.raise_windows@;
    &&& request.focus_window is None
    &&& groups.len() == handles.len()
    &&& crate::common::collections::keys_distinct(handles)
    &&& forall|pid: pid_t| #[trigger]
        crate::common::collections::has_key(handles, pid) <==> takes_part(wids, apps, pid)
    &&& forall|i: int|
        0 <= i < handles.len() ==> {
            &&& (#[trigger] handles[i]).1 == apps[handles[i].0].handle
            &&& groups[i]@ == windows_of(wids, handles[i].0)
        }
}

/// What follows once the overlay of a display is shown. The windows are raised when the overlay
/// has just come up or when they are others than were raised before; the order is kept up in any
/// case.
pub open spec fn follows_overlay(
    before: ReactorModel,
    after: ReactorModel,
    display: DisplayId,
    hidden: Seq<WindowId>,
    visible: Seq<WindowId>,
    made: OverlayWindow,
    follow_up: OverlayFollowUp,
) -> bool {
    let came_up = !before.overlay.is_shown(display);
    let shown = before.overlay.with_shown(display, made);
    &&& after == (ReactorModel { overlay: after.overlay, ..before })
    &&& follow_up.order@ == order_operations(
        shown.overlays.get(display),
        server_numbers(before.windows, hidden),
        server_numbers(before.windows, visible),
    )
    &&& exists|differ: bool|
        {
            &&& #[trigger] shown.raises(after.overlay, display, visible, differ)
            &&& follow_up.raise is Some <==> (came_up || differ) && exists|pid: pid_t| #[trigger]
                takes_part(visible, before.apps, pid)
            &&& (follow_up.raise matches Some(request) ==> raises_by_app(
                visible,
                before.apps,
                request,
            ))
        }
}

/// Whether some of the results say that a frame was changed.
pub fn any_frame_changed(results: &Vec<bool>) -> (r: bool)
    ensures
        r == results@.contains(true),
{
    let mut i: usize = 0;
    while i < results.len()
        invariant
            i <= results@.len(),
            forall|j: int| 0 <= j < i ==> !results@[j],
        decreases results@.len() - i,
    {
        if results[i] {
            assert(results@[i as int] == true);
            return true;
        }
        i += 1;
    }
    false
}

/// The groups on a space as the stack line is told of them.
pub fn tell_groups(space: SpaceId, groups: &Vec<GroupContainer>) -> (r: Vec<GroupInfo>)
    ensures
        r@ == groups@.map_values(|g: GroupContainer| told_group(space, g)),
{
    let mut r: Vec<GroupInfo> = Vec::new();
    let mut i: usize = 0;
    while i < groups.len()
        invariant
            i <= groups@.len(),
            r@ == groups@.take(i as int).map_values(|g: GroupContainer| told_group(space, g)),
        decreases groups@.len() - i,
    {
        let g = groups[i];
        r.push(
            GroupInfo {
                node_id: g.node_id,
                space_id: space,
                container_kind: g.container_kind,
                frame: g.frame,
                total_count: g.total_count,
                selected_index: g.selected_index,
            },
        );
        i += 1;
        assert(r@ =~= groups@.take(i as int).map_values(
            |g: GroupContainer| told_group(space, g),
        ));
    }
    assert(groups@.take(groups@.len() as int) =~= groups@);
    r
}

/// The windows are about to be laid out: the layouts that have to be computed.
pub open spec fn begins_layout(
    before: ReactorModel,
    after: ReactorModel,
    jobs: Seq<(SpaceId, Frame)>,
) -> bool {
    &&& after == (ReactorModel { engine: before.engine.with_none_placed(), ..before })
    &&& jobs == crate::actor::reactor::state::visible_screens(before.screens)
}

/// The overlay of a display was to be shown: what follows when it is, and the error when it is not.
pub open spec fn takes_overlay_up(
    before: ReactorModel,
    after: ReactorModel,
    display: DisplayId,
    hidden: Seq<WindowId>,
    visible: Seq<WindowId>,
    outcome: Result<OverlayWindow, OverlayError>,
    r: Result<OverlayFollowUp, OverlayError>,
) -> bool {
    match outcome {
        Ok(made) => r matches Ok(follow_up) && follows_overlay(
            before,
            after,
            display,
            hidden,
            visible,
            made,
            follow_up,
        ),
        Err(e) => r == Err::<OverlayFollowUp, OverlayError>(e) && after == before,
    }
}

impl LayoutManager {
    /// Begins to lay out the windows: the spaces that a layout has to be computed for, with the
    /// frames of their screens.
    pub fn calculate_layout(reactor: &mut Reactor) -> (jobs: Vec<(SpaceId, Frame)>)
        ensures
            begins_layout(old(reactor)@, final(reactor)@, jobs@),
    {
        reactor.layout_manager.layout_engine.begin_layout_cycle();
        reactor.shown_screens()
    }

    /// The width and height that a window has, or that it is taken to have when it is not known.
    pub fn window_size(reactor: &Reactor, wid: WindowId) -> (r: (u64, u64))
        ensures
            r == known_size(reactor@.windows, wid),
    {
        match reactor.window_manager.windows.get(&wid) {
            Some(window) => (window.frame_monotonic.width, window.frame_monotonic.height),
            None => (DEFAULT_WINDOW_EXTENT, DEFAULT_WINDOW_EXTENT),
        }
    }

    fn screen_frame(reactor: &Reactor, space: SpaceId) -> (r: Option<Frame>)
        ensures
            r == frame_of(reactor@.screens, space),
    {
        let shown = reactor.shown_screens();
        let ghost here = shows(space);
        let mut i: usize = 0;
        reveal(Seq::filter);
        while i < shown.len()
            invariant
                i <= shown@.len(),
                here == shows(space),
                shown@ == crate::actor::reactor::state::visible_screens(reactor@.screens),
                shown@.take(i as int).filter(here).len() == 0,
            decreases shown@.len() - i,
        {
            proof {
                crate::common::sequences::lemma_filter_step(shown@, i as int, here);
            }
            if shown[i].0 == space {
                proof {
                    crate::common::sequences::lemma_filter_prefix(shown@, i + 1, here);
                    assert(shown@.filter(here)[0] == shown@[i as int]);
                }
                return Some(shown[i].1);
            }
            i += 1;
        }
        assert(shown@.take(shown@.len() as int) =~= shown@);
        None
    }

    /// The window that the layouts to be applied leave alone. One that is left alone because a drag
    /// has just ended is left alone this once.
    pub fn take_skipped_window(reactor: &mut Reactor) -> (skip: Option<WindowId>)
        ensures
            final(reactor)@ == old(reactor)@.with_none_skipped(),
            skip == old(reactor)@.skipped_window(),
    {
        let skip = if reactor.drag_manager.skip_layout_for_window.is_some() {
            reactor.drag_manager.skip_layout_for_window
        } else {
            reactor.drag_manager.dragged()
        };
        reactor.drag_manager.skip_layout_for_window = None;
        skip
    }

    /// What is to be done, in order, with the layout that was computed for a space. What is to be
    /// done for the spaces before has been done by then.
    pub fn apply_layout(
        reactor: &Reactor,
        space: SpaceId,
        is_resize: bool,
        is_workspace_switch: bool,
        skip: Option<WindowId>,
    ) -> (steps: Vec<LayoutStep>)
        ensures
            steps@ == reactor@.steps_for(space, is_resize, is_workspace_switch, skip),
    {
        let mut steps: Vec<LayoutStep> = Vec::new();
        if reactor.config_manager.config.stack_line_enabled
            && reactor.communication_manager.stack_line_tx.is_some() {
            if let Some(frame) = Self::screen_frame(reactor, space) {
                steps.push(LayoutStep::UpdateStackLine { space, frame });
            }
        }
        if is_workspace_switch
            || reactor.workspace_switch_manager.active_workspace_switch.is_some() {
            steps.push(LayoutStep::Instant { space, skip });
        } else {
            steps.push(LayoutStep::Animate { space, is_resize, skip });
        }
        assert(steps@ =~= reactor@.steps_for(space, is_resize, is_workspace_switch, skip));
        steps
    }

    /// The windows of the workspace that the display shows and that are on the screen, each once.
    fn seen_windows(reactor: &Reactor, display: DisplayId) -> (r: Vec<WindowId>)
        ensures
            crate::common::sequences::enumerates(r@, reactor@.engine.seen_on(display)),
    {
        let engine = &reactor.layout_manager.layout_engine;
        let mut r: Vec<WindowId> = Vec::new();
        if let Some(id) = engine.active_workspace(display) {
            let all = engine.virtual_workspace_manager().windows_in_workspace(display, id);
            let ghost on_screen = |w: WindowId| !engine@.offscreen.contains_key(w);
            let mut i: usize = 0;
            reveal(Seq::filter);
            while i < all.len()
                invariant
                    i <= all@.len(),
                    on_screen == |w: WindowId| !engine@.offscreen.contains_key(w),
                    r@ == all@.take(i as int).filter(on_screen),
                decreases all@.len() - i,
            {
                proof {
                    crate::common::sequences::lemma_filter_step(all@, i as int, on_screen);
                }
                if !engine.is_window_offscreen(all[i]) {
                    r.push(all[i]);
                }
                i += 1;
            }
            proof {
                assert(all@.take(all@.len() as int) =~= all@);
                if engine@.workspaces.owns(display, id) {
                    crate::common::sequences::lemma_filter_enumerates(
                        all@,
                        engine@.workspaces.workspaces[id].windows,
                        on_screen,
                        engine@.seen_on(display),
                    );
                } else {
                    assert(r@ =~= Seq::<WindowId>::empty());
                    assert(r@.to_set() =~= Set::<WindowId>::empty());
                }
            }
        } else {
            assert(r@.to_set() =~= Set::<WindowId>::empty());
        }
        r
    }

    /// What is to be done with the overlay of a display whose screen has that frame.
    pub fn plan_overlay(reactor: &Reactor, display: DisplayId, frame: Frame) -> (plan: OverlayPlan)
        ensures
            plans_overlay(reactor@, display, frame, plan),
    {
        let hidden = reactor.layout_manager.layout_engine.hidden_windows(display);
        if hidden.len() > 0 {
            assert(hidden@.to_set().contains(hidden@[0]));
            let visible = Self::seen_windows(reactor, display);
            let operations = reactor.workspace_overlay_manager.show_overlay(display, frame);
            OverlayPlan::Show { operations, hidden, visible }
        } else {
            assert(hidden@.to_set() =~= Set::<WindowId>::empty());
            let operations = reactor.workspace_overlay_manager.hide_overlay(display);
            OverlayPlan::Hide { operations }
        }
    }

    /// Groups the windows by application and asks for them to be raised, where there is one that
    /// is known.
    fn raise_request(apps: &HashMap<pid_t, AppState>, visible: &Vec<WindowId>) -> (r: Option<
        RaiseRequest,
    >)
        ensures
            r is Some <==> exists|pid: pid_t| #[trigger] takes_part(visible@, apps@, pid),
            r matches Some(request) ==> raises_by_app(visible@, apps@, request),
    {
        let mut handles: Vec<(pid_t, AppThreadHandle)> = Vec::new();
        let mut groups: Vec<Vec<WindowId>> = Vec::new();
        let mut i: usize = 0;
        while i < visible.len()
            invariant
                i <= visible@.len(),
                groups@.len() == handles@.len(),
                crate::common::collections::keys_distinct(handles@),
                forall|pid: pid_t| #[trigger]
                    crate::common::collections::has_key(handles@, pid) <==> takes_part(
                        visible@.take(i as int),
                        apps@,
                        pid,
                    ),
                forall|j: int|
                    0 <= j < handles@.len() ==> {
                        &&& (#[trigger] handles@[j]).1 == apps@[handles@[j].0].handle
                        &&& groups@[j]@ == windows_of(visible@, handles@[j].0)
                    },
            decreases visible@.len() - i,
        {
            let pid = visible[i].pid;
            let ghost before = handles@;
            let ghost seen = visible@.take(i as int);
            let ghost more = visible@.take(i + 1);
            proof {
                assert forall|p: pid_t| #[trigger] takes_part(more, apps@, p) <==> takes_part(
                    seen,
                    apps@,
                    p,
                ) || (p == pid && apps@.contains_key(p)) by {
                    crate::common::sequences::lemma_filter_step(
                        visible@,
                        i as int,
                        |w: WindowId| w.pid == p,
                    );
                }
            }
            if let Some(app) = apps.get(&pid) {
                if !Self::is_listed(&handles, pid) {
                    handles.push((pid, app.handle));
                    groups.push(Self::group_of(visible, pid));
                    proof {
                        assert forall|p: pid_t| #[trigger]
                            crate::common::collections::has_key(handles@, p) <==> (
                        crate::common::collections::has_key(before, p) || p == pid) by {
                            if crate::common::collections::has_key(before, p) {
                                let j = choose|j: int|
                                    0 <= j < before.len() && (#[trigger] before[j]).0 == p;
                                assert(handles@[j].0 == p);
                            }
                            assert(handles@[before.len() as int].0 == pid);
                        }
                        assert forall|a: int, b: int|
                            0 <= a < b < handles@.len() implies (#[trigger] handles@[a]).0 != (
                        #[trigger] handles@[b]).0 by {
                            if b == before.len() {
                                assert(before[a].0 == handles@[a].0);
                                assert(!crate::common::collections::has_key(before, pid));
                            } else {
                                assert(before[a].0 != before[b].0);
                            }
                        }
                    }
                }
            }
            i += 1;
        }
        proof {
            assert(visible@.take(visible@.len() as int) =~= visible@);
        }
        if handles.len() == 0 {
            proof {
                assert forall|pid: pid_t| !#[trigger] takes_part(visible@, apps@, pid) by {
                    assert(!crate::common::collections::has_key(handles@, pid));
                }
            }
            None
        } else {
            proof {
                assert(crate::common::collections::has_key(handles@, handles@[0].0));
                assert(takes_part(visible@, apps@, handles@[0].0));
            }
            Some(RaiseRequest { raise_windows: groups, focus_window: None, app_handles: handles })
        }
    }

    fn is_listed(handles: &Vec<(pid_t, AppThreadHandle)>, pid: pid_t) -> (r: bool)
        ensures
            r == crate::common::collections::has_key(handles@, pid),
    {
        let mut i: usize = 0;
        while i < handles.len()
            invariant
                i <= handles@.len(),
                forall|j: int| 0 <= j < i ==> (#[trigger] handles@[j]).0 != pid,
            decreases handles@.len() - i,
        {
            if handles[i].0 == pid {
                return true;
            }
            i += 1;
        }
        false
    }

    fn group_of(visible: &Vec<WindowId>, pid: pid_t) -> (r: Vec<WindowId>)
        ensures
            r@ == windows_of(visible@, pid),
    {
        let ghost own = |w: WindowId| w.pid == pid;
        let mut r: Vec<WindowId> = Vec::new();
        let mut i: usize = 0;
        reveal(Seq::filter);
        while i < visible.len()
            invariant
                i <= visible@.len(),
                own == |w: WindowId| w.pid == pid,
                r@ == visible@.take(i as int).filter(own),
            decreases visible@.len() - i,
        {
            proof {
                crate::common::sequences::lemma_filter_step(visible@, i as int, own);
            }
            if visible[i].pid == pid {
                r.push(visible[i]);
            }
            i += 1;
        }
        assert(visible@.take(visible@.len() as int) =~= visible@);
        r
    }

    /// The numbers that the window server gave to the windows, of those that have one.
    fn numbers_of(reactor: &Reactor, wids: &Vec<WindowId>) -> (r: Vec<u32>)
        ensures
            r@ == server_numbers(reactor@.windows, wids@),
    {
        let ghost windows = reactor@.windows;
        let ghost numbered = |w: WindowId|
            windows.contains_key(w) && windows[w].window_server_id is Some;
        let ghost number = |w: WindowId| windows[w].window_server_id->0.id;
        let mut r: Vec<u32> = Vec::new();
        let mut i: usize = 0;
        reveal(Seq::filter);
        assert(r@ =~= wids@.take(0).filter(numbered).map_values(number));
        while i < wids.len()
            invariant
                i <= wids@.len(),
                windows == reactor@.windows,
                numbered == |w: WindowId|
                    windows.contains_key(w) && windows[w].window_server_id is Some,
                number == |w: WindowId| windows[w].window_server_id->0.id,
                r@ == wids@.take(i as int).filter(numbered).map_values(number),
            decreases wids@.len() - i,
        {
            let wid = wids[i];
            proof {
                let kept = wids@.take(i as int).filter(numbered);
                crate::common::sequences::lemma_filter_step(wids@, i as int, numbered);
                assert(kept.push(wid).map_values(number) =~= kept.map_values(number).push(
                    number(wid),
                ));
            }
            if let Some(window) = reactor.window_manager.windows.get(&wid) {
                if let Some(wsid) = window.window_server_id {
                    r.push(wsid.id);
                }
            }
            i += 1;
        }
        assert(wids@.take(wids@.len() as int) =~= wids@);
        r
    }

    /// How the overlay of a display is ordered among the windows.
    fn order_overlay(
        overlays: &WorkspaceOverlayManager,
        display: DisplayId,
        hidden: &Vec<u32>,
        visible: &Vec<u32>,
    ) -> (r: Vec<OverlayOperation>)
        ensures
            r@ == order_operations(overlays@.overlays.get(display), hidden@, visible@),
    {
        let ghost overlay = overlays@.overlays.get(display);
        let mut r: Vec<OverlayOperation> = Vec::new();
        let mut i: usize = 0;
        assert(r@ =~= order_operations(overlay, hidden@.take(0), Seq::empty()));
        while i < hidden.len()
            invariant
                i <= hidden@.len(),
                overlay == overlays@.overlays.get(display),
                r@ == order_operations(overlay, hidden@.take(i as int), Seq::empty()),
            decreases hidden@.len() - i,
        {
            if let Some(operation) = overlays.order_overlay_above(display, hidden[i]) {
                r.push(operation);
            }
            i += 1;
            assert(r@ =~= order_operations(overlay, hidden@.take(i as int), Seq::empty()));
        }
        assert(hidden@.take(hidden@.len() as int) =~= hidden@);
        let mut j: usize = 0;
        assert(r@ =~= order_operations(overlay, hidden@, visible@.take(0)));
        while j < visible.len()
            invariant
                j <= visible@.len(),
                overlay == overlays@.overlays.get(display),
                r@ == order_operations(overlay, hidden@, visible@.take(j as int)),
            decreases visible@.len() - j,
        {
            if let Some(operation) = overlays.order_overlay_behind(display, visible[j]) {
                r.push(operation);
            }
            j += 1;
            assert(r@ =~= order_operations(overlay, hidden@, visible@.take(j as int)));
        }
        assert(visible@.take(visible@.len() as int) =~= visible@);
        r
    }

    /// The operations that show the overlay of a display have been done, or one has failed. In
    /// the latter case nothing follows.
    pub fn overlay_shown(
        reactor: &mut Reactor,
        display: DisplayId,
        hidden: &Vec<WindowId>,
        visible: &Vec<WindowId>,
        outcome: Result<OverlayWindow, OverlayError>,
    ) -> (r: Result<OverlayFollowUp, OverlayError>)
        ensures
            takes_overlay_up(
                old(reactor)@,
                final(reactor)@,
                display,
                hidden@,
                visible@,
                outcome,
                r,
            ),
    {
        let came_up = match reactor.workspace_overlay_manager.record_overlay_shown(display, outcome) {
            Ok(came_up) => came_up,
            Err(e) => {
                return Err(e);
            },
        };
        let ghost shown = reactor@.overlay;
        let differ = reactor.workspace_overlay_manager.should_raise_windows(
            display,
            copied_windows(visible),
        );
        assert(shown.raises(reactor@.overlay, display, visible@, differ));
        let raise = if came_up || differ {
            Self::raise_request(&reactor.app_manager.apps, visible)
        } else {
            None
        };
        let above = Self::numbers_of(reactor, hidden);
        let below = Self::numbers_of(reactor, visible);
        let order = Self::order_overlay(&reactor.workspace_overlay_manager, display, &above, &below);
        Ok(OverlayFollowUp { raise, order })
    }

    /// The operations that hide the overlay of a display have been done, or one has failed. In
    /// either case no windows are the ones that were last raised from now on.
    pub fn overlay_hidden(
        reactor: &mut Reactor,
        display: DisplayId,
        outcome: Result<(), OverlayError>,
    )
        ensures
            final(reactor)@ == old(reactor)@.with_overlay_down(display, outcome is Ok),
    {
        let _ = reactor.workspace_overlay_manager.record_overlay_hidden(display, outcome);
        let ghost hidden = reactor@.overlay;
        let none: Vec<WindowId> = Vec::new();
        assert(none@ =~= Seq::<WindowId>::empty());
        let differ = reactor.workspace_overlay_manager.should_raise_windows(display, none);
        proof {
            crate::ui::workspace_overlay::raising_none_forgets_the_raised(
                hidden,
                reactor@.overlay,
                display,
                differ,
            );
        }
    }
}

/// Copies a list of windows.
fn copied_windows(wids: &Vec<WindowId>) -> (r: Vec<WindowId>)
    ensures
        r@ == wids@,
{
    let mut r: Vec<WindowId> = Vec::new();
    let mut i: usize = 0;
    while i < wids.len()
        invariant
            i <= wids@.len(),
            r@ == wids@.take(i as int),
        decreases wids@.len() - i,
    {
        r.push(wids[i]);
        i += 1;
        assert(r@ =~= wids@.take(i as int));
    }
    assert(r@ =~= wids@);
    r
}

/// Laying out the windows a second time raises none while the same windows are to be seen, so
/// that raising cannot go on for ever.
pub proof fn seen_windows_are_raised_once(
    before: ReactorModel,
    between: ReactorModel,
    after: ReactorModel,
    display: DisplayId,
    hidden: Seq<WindowId>,
    visible: Seq<WindowId>,
    later_hidden: Seq<WindowId>,
    later_visible: Seq<WindowId>,
    made: OverlayWindow,
    later_made: OverlayWindow,
    first: OverlayFollowUp,
    second: OverlayFollowUp,
)
    requires
        later_visible.to_multiset() == visible.to_multiset(),
        follows_overlay(before, between, display, hidden, visible, made, first),
        follows_overlay(
            between,
            after,
            display,
            later_hidden,
            later_visible,
            later_made,
            second,
        ),
    ensures
        second.raise is None,
        after.overlay == between.overlay,
{
    let shown = before.overlay.with_shown(display, made);
    let differ = choose|differ: bool|
        {
            &&& #[trigger] shown.raises(between.overlay, display, visible, differ)
            &&& first.raise is Some <==> (!before.overlay.is_shown(display) || differ) && exists|
                pid: pid_t,
            | #[trigger]
                takes_part(visible, before.apps, pid)
            &&& (first.raise matches Some(request) ==> raises_by_app(visible, before.apps, request))
        };
    assert(between.overlay.is_shown(display));
    assert(between.overlay.with_shown(display, later_made) == between.overlay);
    let again = choose|again: bool|
        {
            &&& #[trigger] between.overlay.raises(after.overlay, display, later_visible, again)
            &&& second.raise is Some <==> again && exists|pid: pid_t| #[trigger]
                takes_part(later_visible, between.apps, pid)
            &&& (second.raise matches Some(request) ==> raises_by_app(
                later_visible,
                between.apps,
                request,
            ))
        };
    crate::ui::workspace_overlay::raised_windows_are_not_raised_again(
        shown,
        between.overlay,
        after.overlay,
        display,
        visible,
        later_visible,
        differ,
        again,
    );
}

/// No window is both to be seen and to be hidden, and a window of the shown workspace is one or
/// the other.
pub proof fn windows_are_seen_or_hidden(engine: EngineModel, display: DisplayId, other: DisplayId)
    requires
        engine.workspaces.wf(),
    ensures
        engine.seen_on(display).disjoint(engine.hidden_on(other)),
        forall|w: WindowId| #[trigger]
            engine.shown_on(display).contains(w) ==> (engine.seen_on(display).contains(w)
                <==> !engine.offscreen.contains_key(w)),
{
    assert forall|w: WindowId| #[trigger] engine.shown_on(display).contains(w) implies (
    engine.seen_on(display).contains(w) <==> !engine.offscreen.contains_key(w)) by {
        assert(engine.workspaces.active.contains_key(display));
    }
}

} // verus!

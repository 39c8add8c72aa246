//! What the plans for the layout hold, in terms of what the reactor knows.
use vstd::prelude::*;
use crate::actor::reactor::layout::{
    GroupContainer, LayoutStep, OverlayFollowUp, OverlayPlan,
};
use crate::actor::reactor::managers::{AppState, Screen};
use crate::actor::reactor::state::{RaiseRequest, ReactorModel};
use crate::layout_engine::EngineModel;
use crate::model::geometry::Frame;
use crate::model::ids::{pid_t, DisplayId, SpaceId, WindowId};
use crate::ui::workspace_overlay::{OverlayError, OverlayOperation, OverlayWindow};

verus! {

/// The overlay of a display is to be shown exactly when some window was moved off the screen of that
/// very display, and it is there to hide those windows, each once, and no others. The windows that
/// are to be seen are, each once, those of the workspace that the display shows and that were not
/// moved off any screen.
pub proof fn overlay_hides_what_left_its_display(
    reactor: ReactorModel,
    display: DisplayId,
    frame: Frame,
    plan: OverlayPlan,
)
    requires
        crate::actor::reactor::layout::plans_overlay(reactor, display, frame, plan),
    ensures
        plan is Show <==> exists|w: WindowId| #[trigger]
            reactor.engine.offscreen.contains_key(w) && reactor.engine.offscreen[w] == display,
        plan matches OverlayPlan::Show { hidden, visible, .. } ==> {
            &&& hidden@.no_duplicates()
            &&& forall|w: WindowId| #[trigger]
                hidden@.contains(w) <==> reactor.engine.offscreen.contains_key(w)
                    && reactor.engine.offscreen[w] == display
            &&& visible@.no_duplicates()
            &&& forall|w: WindowId| #[trigger]
                visible@.contains(w) <==> {
                    let workspaces = reactor.engine.workspaces;
                    &&& !reactor.engine.offscreen.contains_key(w)
                    &&& workspaces.active.contains_key(display)
                    &&& workspaces.workspaces.contains_key(workspaces.active[display].1)
                    &&& workspaces.workspaces[workspaces.active[display].1].display == display
                    &&& workspaces.workspaces[workspaces.active[display].1].windows.contains(w)
                }
        },
{
    let to_hide = reactor.engine.hidden_on(display);
    match plan {
        OverlayPlan::Show { hidden, visible, .. } => {
            if forall|w: WindowId| !to_hide.contains(w) {
                assert(to_hide =~= Set::<WindowId>::empty());
            }
            let w = choose|w: WindowId| to_hide.contains(w);
            assert(reactor.engine.offscreen.contains_key(w));
            assert forall|w: WindowId| #[trigger]
                hidden@.contains(w) <==> reactor.engine.offscreen.contains_key(w)
                && reactor.engine.offscreen[w] == display by {
                assert(hidden@.to_set().contains(w) <==> hidden@.contains(w));
                assert(to_hide.contains(w) <==> hidden@.to_set().contains(w));
            }
            assert forall|w: WindowId| #[trigger]
                visible@.contains(w) <==> reactor.engine.seen_on(display).contains(w) by {
                assert(visible@.to_set().contains(w) <==> visible@.contains(w));
            }
        },
        OverlayPlan::Hide { .. } => {
            assert forall|w: WindowId| !(#[trigger] reactor.engine.offscreen.contains_key(w)
                && reactor.engine.offscreen[w] == display) by {
                assert(!to_hide.contains(w));
            }
        },
    }
}

/// A window that is moved off the screen of one display changes the plan of no other: the same
/// windows are to be hidden and to be seen there as before, if it was not one of them.
pub proof fn hidden_window_concerns_one_display(
    engine: EngineModel,
    window: WindowId,
    display: DisplayId,
    other: DisplayId,
)
    requires
        display != other,
        !engine.offscreen.contains_key(window),
    ensures
        ({
            let moved = EngineModel {
                offscreen: engine.offscreen.insert(window, display),
                ..engine
            };
            &&& moved.hidden_on(other) == engine.hidden_on(other)
            &&& moved.hidden_on(display) == engine.hidden_on(display).insert(window)
            &&& moved.seen_on(other) == engine.seen_on(other).remove(window)
            &&& moved.hidden_on(display).disjoint(moved.hidden_on(other))
            &&& forall|w: WindowId| #[trigger]
                moved.offscreen.contains_key(w) ==> moved.hidden_on(moved.offscreen[w]).contains(w)
            &&& moved.shown_on(other) == engine.shown_on(other)
        }),
{
    let moved = EngineModel { offscreen: engine.offscreen.insert(window, display), ..engine };
    assert(moved.hidden_on(other) =~= engine.hidden_on(other));
    assert(moved.hidden_on(display) =~= engine.hidden_on(display).insert(window));
    assert(moved.seen_on(other) =~= engine.seen_on(other).remove(window));
}

/// The windows that a display shows are those of the workspace that is on record as shown.
pub proof fn shown_windows_are_those_of_the_shown_workspace(
    engine: EngineModel,
    display: DisplayId,
    w: WindowId,
)
    ensures
        engine.shown_on(display).contains(w) <==> {
            &&& engine.workspaces.active.contains_key(display)
            &&& engine.workspaces.workspaces.contains_key(engine.workspaces.active[display].1)
            &&& engine.workspaces.workspaces[engine.workspaces.active[display].1].windows.contains(w)
        },
{
}

/// The spaces that are shown are those of the screens that show one, in the order of the screens,
/// each with the frame of its screen. The result tells which screens those are.
pub proof fn shown_spaces_go_by_screen(screens: Seq<Screen>) -> (at: Seq<int>)
    ensures
        ({
            let spaces = crate::actor::reactor::state::visible_spaces(screens);
            let with_frames = crate::actor::reactor::state::visible_screens(screens);
            &&& spaces.len() == at.len()
            &&& with_frames.len() == at.len()
            &&& forall|i: int, j: int| 0 <= i < j < at.len() ==> (#[trigger] at[i]) < (
            #[trigger] at[j])
            &&& forall|i: int|
                0 <= i < at.len() ==> {
                    &&& 0 <= #[trigger] at[i] < screens.len()
                    &&& screens[at[i]].space == Some(spaces[i])
                    &&& with_frames[i] == (spaces[i], screens[at[i]].frame)
                }
            &&& forall|k: int|
                0 <= k < screens.len() && (#[trigger] screens[k]).space is Some ==> at.contains(k)
        }),
        crate::actor::reactor::state::first_visible(screens) == if at.len() > 0 {
            screens[at[0]].space
        } else {
            None
        },
        crate::actor::reactor::state::first_space(screens) == if screens.len() > 0 {
            screens[0].space
        } else {
            None
        },
{
    let shows = |s: Screen| s.space is Some;
    let at = crate::common::sequences::filter_keeps_order(screens, shows);
    assert forall|k: int| 0 <= k < screens.len() && (#[trigger] screens[k]).space is Some
        implies at.contains(k) by {
        assert(shows(screens[k]));
    }
    at
}

/// The display of a space is the first screen that shows it.
pub proof fn display_of_a_space_is_unique(
    screens: Seq<Screen>,
    space: SpaceId,
    a: Option<DisplayId>,
    b: Option<DisplayId>,
)
    requires
        crate::actor::reactor::state::showing(screens, space, a),
        crate::actor::reactor::state::showing(screens, space, b),
    ensures
        a == b,
        a matches Some(d) ==> d < screens.len() && screens[d as int].space == Some(space),
        a is Some <==> exists|k: int|
            0 <= k < screens.len() && (#[trigger] screens[k]).space == Some(space),
        forall|k: int|
            0 <= k < screens.len() && (#[trigger] screens[k]).space == Some(space) ==> a is Some && a->0
                <= k,
{
    if let Some(d) = a {
        assert(screens[d as int].space == Some(space));
        if let Some(e) = b {
            assert(screens[e as int].space == Some(space));
        }
    }
    if let Some(e) = b {
        assert(screens[e as int].space == Some(space));
    }
}

/// The frame that the groups on a space are told with is that of the first screen that shows the
/// space; there is none when no screen does.
pub proof fn frame_of_a_space_is_that_of_its_screen(
    screens: Seq<Screen>,
    space: SpaceId,
    display: Option<DisplayId>,
)
    requires
        crate::actor::reactor::state::showing(screens, space, display),
    ensures
        crate::actor::reactor::layout::frame_of(screens, space) == match display {
            Some(d) => Some(screens[d as int].frame),
            None => None,
        },
{
    let shown = crate::actor::reactor::state::visible_screens(screens);
    let here = crate::actor::reactor::layout::shows(space);
    let at = shown_spaces_go_by_screen(screens);
    let on = crate::common::sequences::filter_keeps_order(shown, here);
    match display {
        Some(d) => {
            assert(screens[d as int].space is Some);
            assert(at.contains(d as int));
            let i = choose|i: int| 0 <= i < at.len() && at[i] == d as int;
            assert(shown[i].0 == space);
            assert(here(shown[i]));
            assert(on.contains(i));
            let first = on[0];
            assert(here(shown[first]));
            assert(screens[at[first]].space == Some(space));
            if first < i {
                assert(at[first] < at[i]);
                assert(screens[at[first]].space != Some(space));
            }
            if i < first {
                let k = choose|k: int| 0 <= k < on.len() && on[k] == i;
                if k > 0 {
                    assert(on[0] < on[k]);
                }
            }
            assert(first == i);
        },
        None => {
            if on.len() > 0 {
                let first = on[0];
                assert(here(shown[first]));
                assert(screens[at[first]].space == Some(space));
            }
        },
    }
}

/// The layout of a space is followed by one step that puts the windows in their places, and that
/// step comes last and leaves the given window alone. It is done at once exactly when workspaces are
/// being switched, and otherwise as a movement that knows whether windows are being resized. Before
/// it the groups of the space are told, exactly when that is asked for by the settings, there is
/// someone to tell, and a screen shows the space; the frame is that of the first such screen.
pub proof fn layout_is_followed_in_one_step(
    reactor: ReactorModel,
    space: SpaceId,
    is_resize: bool,
    is_workspace_switch: bool,
    skip: Option<WindowId>,
    display: Option<DisplayId>,
)
    requires
        crate::actor::reactor::state::showing(reactor.screens, space, display),
    ensures
        ({
            let steps = reactor.steps_for(space, is_resize, is_workspace_switch, skip);
            let told = reactor.config.stack_line_enabled && reactor.channels.stack_line_tx is Some
                && display is Some;
            &&& steps.len() == if told {
                2nat
            } else {
                1nat
            }
            &&& steps.last() == if is_workspace_switch
                || reactor.switching.active_workspace_switch is Some {
                LayoutStep::Instant { space, skip }
            } else {
                LayoutStep::Animate { space, is_resize, skip }
            }
            &&& told ==> steps[0] == (LayoutStep::UpdateStackLine {
                space,
                frame: reactor.screens[display->0 as int].frame,
            })
        }),
{
    frame_of_a_space_is_that_of_its_screen(reactor.screens, space, display);
}

/// The window that is left alone is the one that has just been dropped, or else the one that is being
/// dragged.
pub proof fn dropped_or_dragged_window_is_left_alone(reactor: ReactorModel)
    ensures
        reactor.drag.skip_layout_for_window is Some ==> reactor.skipped_window()
            == reactor.drag.skip_layout_for_window,
        reactor.drag.skip_layout_for_window is None ==> reactor.skipped_window()
            == reactor.drag.drag_swap_manager.dragged,
{
}

/// A window that is known has the size of the frame on record; any other is taken to measure five
/// hundred both ways.
pub proof fn known_window_has_its_own_size(reactor: ReactorModel, wid: WindowId)
    ensures
        reactor.windows.contains_key(wid) ==> crate::actor::reactor::layout::known_size(
            reactor.windows,
            wid,
        ) == (
            reactor.windows[wid].frame_monotonic.width,
            reactor.windows[wid].frame_monotonic.height,
        ),
        !reactor.windows.contains_key(wid) ==> crate::actor::reactor::layout::known_size(
            reactor.windows,
            wid,
        ) == (0x407f_4000_0000_0000u64, 0x407f_4000_0000_0000u64),
{
}

/// A group is told as it is, with its space.
pub proof fn group_is_told_as_it_is(space: SpaceId, g: GroupContainer)
    ensures
        ({
            let told = crate::actor::reactor::layout::told_group(space, g);
            &&& told.space_id == space
            &&& told.node_id == g.node_id
            &&& told.container_kind == g.container_kind
            &&& told.frame == g.frame
            &&& told.total_count == g.total_count
            &&& told.selected_index == g.selected_index
        }),
{
}

/// A request to raise windows has one group for each application that is known and owns some of
/// them: its windows and no others, in the order in which they were given, under its own handle. No
/// window gets the focus.
pub proof fn windows_are_raised_by_their_applications(
    wids: Seq<WindowId>,
    apps: Map<pid_t, AppState>,
    request: RaiseRequest,
)
    requires
        crate::actor::reactor::layout::raises_by_app(wids, apps, request),
    ensures
        request.focus_window is None,
        request.raise_windows@.len() == request.app_handles@.len(),
        forall|i: int|
            0 <= i < request.app_handles@.len() ==> {
                let (pid, handle) = #[trigger] request.app_handles@[i];
                &&& apps.contains_key(pid)
                &&& handle == apps[pid].handle
                &&& request.raise_windows@[i]@.len() > 0
                &&& forall|k: int|
                    0 <= k < request.raise_windows@[i]@.len() ==> {
                        &&& (#[trigger] request.raise_windows@[i]@[k]).pid == pid
                        &&& wids.contains(request.raise_windows@[i]@[k])
                    }
                &&& forall|w: WindowId| #[trigger]
                    wids.contains(w) && w.pid == pid ==> request.raise_windows@[i]@.contains(w)
                &&& wids.no_duplicates() ==> forall|a: int, b: int, x: int, y: int|
                    #![trigger request.raise_windows@[i]@[a], request.raise_windows@[i]@[b], wids[x], wids[y]]
                    {
                        &&& 0 <= a < b < request.raise_windows@[i]@.len()
                        &&& 0 <= x < wids.len()
                        &&& 0 <= y < wids.len()
                        &&& wids[x] == request.raise_windows@[i]@[a]
                        &&& wids[y] == request.raise_windows@[i]@[b]
                    } ==> x < y
            },
        forall|i: int, j: int|
            0 <= i < j < request.app_handles@.len() ==> (#[trigger] request.app_handles@[i]).0 != (
            #[trigger] request.app_handles@[j]).0,
        forall|w: WindowId| #[trigger]
            wids.contains(w) && apps.contains_key(w.pid) ==> exists|i: int|
                0 <= i < request.app_handles@.len() && (#[trigger] request.app_handles@[i]).0 == w.pid,
{
    let handles = request.app_handles@;
    let groups = request.raise_windows@;
    assert forall|i: int| 0 <= i < handles.len() implies {
        let (pid, handle) = #[trigger] handles[i];
        &&& apps.contains_key(pid)
        &&& handle == apps[pid].handle
        &&& groups[i]@.len() > 0
        &&& forall|k: int|
            0 <= k < groups[i]@.len() ==> {
                &&& (#[trigger] groups[i]@[k]).pid == pid
                &&& wids.contains(groups[i]@[k])
            }
        &&& forall|w: WindowId| #[trigger]
            wids.contains(w) && w.pid == pid ==> groups[i]@.contains(w)
        &&& wids.no_duplicates() ==> forall|a: int, b: int, x: int, y: int|
            #![trigger groups[i]@[a], groups[i]@[b], wids[x], wids[y]]
            {
                &&& 0 <= a < b < groups[i]@.len()
                &&& 0 <= x < wids.len()
                &&& 0 <= y < wids.len()
                &&& wids[x] == groups[i]@[a]
                &&& wids[y] == groups[i]@[b]
            } ==> x < y
    } by {
        let pid = handles[i].0;
        let own = |w: WindowId| w.pid == pid;
        let group = crate::actor::reactor::layout::windows_of(wids, pid);
        assert(crate::common::collections::has_key(handles, pid));
        assert(crate::actor::reactor::layout::takes_part(wids, apps, pid));
        assert(groups[i]@ == group);
        let at = crate::common::sequences::filter_keeps_order(wids, own);
        assert forall|k: int| 0 <= k < group.len() implies (#[trigger] group[k]).pid == pid
            && wids.contains(group[k]) by {
            assert(own(wids[at[k]]));
        }
        assert forall|w: WindowId| #[trigger]
            wids.contains(w) && w.pid == pid implies group.contains(w) by {
            crate::common::sequences::lemma_filter_contains(wids, own, w);
        }
        if wids.no_duplicates() {
            assert forall|a: int, b: int, x: int, y: int|
                #![trigger group[a], group[b], wids[x], wids[y]]
                {
                    &&& 0 <= a < b < group.len()
                    &&& 0 <= x < wids.len()
                    &&& 0 <= y < wids.len()
                    &&& wids[x] == group[a]
                    &&& wids[y] == group[b]
                } implies x < y by {
                assert(at[a] < at[b]);
                assert(wids[at[a]] == wids[x]);
                assert(wids[at[b]] == wids[y]);
            }
        }
    }
    assert forall|w: WindowId| #[trigger]
        wids.contains(w) && apps.contains_key(w.pid) implies exists|i: int|
        0 <= i < handles.len() && (#[trigger] handles[i]).0 == w.pid by {
        let own = |v: WindowId| v.pid == w.pid;
        crate::common::sequences::lemma_filter_contains(wids, own, w);
        let group = crate::actor::reactor::layout::windows_of(wids, w.pid);
        assert(group.contains(w));
        assert(crate::actor::reactor::layout::takes_part(wids, apps, w.pid));
        assert(crate::common::collections::has_key(handles, w.pid));
    }
}

/// Once the overlay of a display is shown, windows are raised only if some application of theirs is
/// known, and always so when the overlay has just come up. Nothing that is known changes but what is
/// known of overlays.
pub proof fn windows_are_raised_when_the_overlay_comes_up(
    before: ReactorModel,
    after: ReactorModel,
    display: DisplayId,
    hidden: Seq<WindowId>,
    visible: Seq<WindowId>,
    made: OverlayWindow,
    follow_up: OverlayFollowUp,
)
    requires
        crate::actor::reactor::layout::follows_overlay(
            before,
            after,
            display,
            hidden,
            visible,
            made,
            follow_up,
        ),
    ensures
        follow_up.raise is Some ==> exists|i: int|
            0 <= i < visible.len() && before.apps.contains_key((#[trigger] visible[i]).pid),
        !(before.overlay.shown.contains_key(display) && before.overlay.shown[display]) && (exists|
            i: int,
        |
            0 <= i < visible.len() && before.apps.contains_key((#[trigger] visible[i]).pid))
            ==> follow_up.raise is Some,
        follow_up.raise matches Some(request) ==> crate::actor::reactor::layout::raises_by_app(
            visible,
            before.apps,
            request,
        ),
        after == (ReactorModel { overlay: after.overlay, ..before }),
{
    let shown = before.overlay.with_shown(display, made);
    let differ = choose|differ: bool|
        {
            &&& #[trigger] shown.raises(after.overlay, display, visible, differ)
            &&& follow_up.raise is Some <==> (!before.overlay.is_shown(display) || differ) && exists|
                pid: pid_t,
            | #[trigger]
                crate::actor::reactor::layout::takes_part(visible, before.apps, pid)
            &&& (follow_up.raise matches Some(request)
                ==> crate::actor::reactor::layout::raises_by_app(visible, before.apps, request))
        };
    if follow_up.raise is Some {
        let pid = choose|pid: pid_t| #[trigger]
            crate::actor::reactor::layout::takes_part(visible, before.apps, pid);
        let own = |w: WindowId| w.pid == pid;
        let at = crate::common::sequences::filter_keeps_order(visible, own);
        assert(own(visible[at[0]]));
        assert(before.apps.contains_key(visible[at[0]].pid));
    }
    if exists|i: int|
        0 <= i < visible.len() && before.apps.contains_key((#[trigger] visible[i]).pid) {
        let i = choose|i: int|
            0 <= i < visible.len() && before.apps.contains_key((#[trigger] visible[i]).pid);
        let pid = visible[i].pid;
        crate::common::sequences::lemma_filter_contains(
            visible,
            |w: WindowId| w.pid == pid,
            visible[i],
        );
        assert(crate::actor::reactor::layout::windows_of(visible, pid).contains(visible[i]));
        assert(crate::actor::reactor::layout::takes_part(visible, before.apps, pid));
    }
}

/// The overlay of a display, and no other, is ordered above each window that it is to hide and below
/// each that is to be seen, as far as the window server has a number for the window, and all that it
/// is to hide come first.
pub proof fn overlay_is_ordered_between_the_windows(
    before: ReactorModel,
    after: ReactorModel,
    display: DisplayId,
    hidden: Seq<WindowId>,
    visible: Seq<WindowId>,
    made: OverlayWindow,
    follow_up: OverlayFollowUp,
)
    requires
        crate::actor::reactor::layout::follows_overlay(
            before,
            after,
            display,
            hidden,
            visible,
            made,
            follow_up,
        ),
        before.overlay.shown.contains_key(display) && before.overlay.shown[display]
            ==> before.overlay.overlays.contains_key(display),
    ensures
        ({
            let overlay = if before.overlay.overlays.contains_key(display) {
                before.overlay.overlays[display]
            } else {
                made
            };
            let order = follow_up.order@;
            &&& forall|i: int|
                #![trigger hidden[i]]
                0 <= i < hidden.len() && before.windows.contains_key(hidden[i]) && (
                before.windows[hidden[i]].window_server_id is Some) ==> order.contains(
                    OverlayOperation::OrderAbove(
                        overlay,
                        before.windows[hidden[i]].window_server_id->0.id,
                    ),
                )
            &&& forall|i: int|
                #![trigger visible[i]]
                0 <= i < visible.len() && before.windows.contains_key(visible[i]) && (
                before.windows[visible[i]].window_server_id is Some) ==> order.contains(
                    OverlayOperation::OrderBelow(
                        overlay,
                        before.windows[visible[i]].window_server_id->0.id,
                    ),
                )
            &&& forall|k: int|
                0 <= k < order.len() ==> match #[trigger] order[k] {
                    OverlayOperation::OrderAbove(o, n) => o == overlay && exists|i: int|
                        {
                            &&& 0 <= i < hidden.len()
                            &&& before.windows.contains_key(#[trigger] hidden[i])
                            &&& before.windows[hidden[i]].window_server_id is Some
                            &&& before.windows[hidden[i]].window_server_id->0.id == n
                        },
                    OverlayOperation::OrderBelow(o, n) => o == overlay && exists|i: int|
                        {
                            &&& 0 <= i < visible.len()
                            &&& before.windows.contains_key(#[trigger] visible[i])
                            &&& before.windows[visible[i]].window_server_id is Some
                            &&& before.windows[visible[i]].window_server_id->0.id == n
                        },
                    _ => false,
                }
            &&& forall|j: int, k: int|
                0 <= j < k < order.len() && #[trigger] order[k] is OrderAbove
                    ==> #[trigger] order[j] is OrderAbove
        }),
{
    let overlay = if before.overlay.overlays.contains_key(display) {
        before.overlay.overlays[display]
    } else {
        made
    };
    let windows = before.windows;
    let shown = before.overlay.with_shown(display, made);
    assert(shown.overlays.get(display) == Some(overlay));
    let order = follow_up.order@;
    let above = crate::actor::reactor::layout::server_numbers(windows, hidden);
    let below = crate::actor::reactor::layout::server_numbers(windows, visible);
    let first = above.map_values(|n: u32| OverlayOperation::OrderAbove(overlay, n));
    let second = below.map_values(|n: u32| OverlayOperation::OrderBelow(overlay, n));
    assert(order == first + second);
    let numbered = |w: WindowId| windows.contains_key(w) && windows[w].window_server_id is Some;
    let up = crate::common::sequences::filter_keeps_order(hidden, numbered);
    let down = crate::common::sequences::filter_keeps_order(visible, numbered);
    assert forall|i: int|
        #![trigger hidden[i]]
        0 <= i < hidden.len() && windows.contains_key(hidden[i]) && (
        windows[hidden[i]].window_server_id is Some) implies order.contains(
        OverlayOperation::OrderAbove(overlay, windows[hidden[i]].window_server_id->0.id),
    ) by {
        assert(numbered(hidden[i]));
        assert(up.contains(i));
        let k = choose|k: int| 0 <= k < up.len() && up[k] == i;
        assert(above[k] == windows[hidden[i]].window_server_id->0.id);
        assert(order[k] == first[k]);
    }
    assert forall|i: int|
        #![trigger visible[i]]
        0 <= i < visible.len() && windows.contains_key(visible[i]) && (
        windows[visible[i]].window_server_id is Some) implies order.contains(
        OverlayOperation::OrderBelow(overlay, windows[visible[i]].window_server_id->0.id),
    ) by {
        assert(numbered(visible[i]));
        assert(down.contains(i));
        let k = choose|k: int| 0 <= k < down.len() && down[k] == i;
        assert(below[k] == windows[visible[i]].window_server_id->0.id);
        assert(order[first.len() + k] == second[k]);
    }
    assert forall|k: int| 0 <= k < order.len() implies match #[trigger] order[k] {
        OverlayOperation::OrderAbove(o, n) => o == overlay && exists|i: int|
            {
                &&& 0 <= i < hidden.len()
                &&& windows.contains_key(#[trigger] hidden[i])
                &&& windows[hidden[i]].window_server_id is Some
                &&& windows[hidden[i]].window_server_id->0.id == n
            },
        OverlayOperation::OrderBelow(o, n) => o == overlay && exists|i: int|
            {
                &&& 0 <= i < visible.len()
                &&& windows.contains_key(#[trigger] visible[i])
                &&& windows[visible[i]].window_server_id is Some
                &&& windows[visible[i]].window_server_id->0.id == n
            },
        _ => false,
    } by {
        if k < first.len() {
            assert(order[k] == first[k]);
            assert(numbered(hidden[up[k]]));
        } else {
            let l = k - first.len();
            assert(order[k] == second[l]);
            assert(numbered(visible[down[l]]));
        }
    }
    assert forall|j: int, k: int|
        0 <= j < k < order.len() && #[trigger] order[k] is OrderAbove implies #[trigger] order[j]
        is OrderAbove by {
        if k >= first.len() {
            assert(order[k] == second[k - first.len()]);
        }
        assert(order[j] == first[j]);
    }
}

/// A layout is computed for each space that is shown, with the frame of its screen, in the order of the
/// screens, and begins with no window placed. Nothing else changes. The result tells which screens
/// those are.
pub proof fn layout_is_begun_for_shown_spaces(
    before: ReactorModel,
    after: ReactorModel,
    jobs: Seq<(SpaceId, Frame)>,
) -> (at: Seq<int>)
    requires
        crate::actor::reactor::layout::begins_layout(before, after, jobs),
    ensures
        jobs.len() == at.len(),
        forall|i: int, j: int| 0 <= i < j < at.len() ==> (#[trigger] at[i]) < (#[trigger] at[j]),
        forall|i: int|
            0 <= i < at.len() ==> {
                &&& 0 <= #[trigger] at[i] < before.screens.len()
                &&& before.screens[at[i]].space == Some(jobs[i].0)
                &&& before.screens[at[i]].frame == jobs[i].1
            },
        forall|k: int|
            0 <= k < before.screens.len() && (#[trigger] before.screens[k]).space is Some
                ==> at.contains(k),
        forall|w: WindowId| !#[trigger] after.engine.positioned.contains(w),
        after.engine.workspaces == before.engine.workspaces,
        after.engine.floating == before.engine.floating,
        after.engine.offscreen == before.engine.offscreen,
        after == (ReactorModel { engine: after.engine, ..before }),
{
    shown_spaces_go_by_screen(before.screens)
}

/// A window that is left alone on account of a drag that has ended is left alone once: when it has
/// been, only a window that is being dragged is left alone. Nothing else changes.
pub proof fn dropped_window_is_left_alone_once(before: ReactorModel)
    ensures
        ({
            let after = before.with_none_skipped();
            &&& after.drag.skip_layout_for_window is None
            &&& after.skipped_window() == before.drag.drag_swap_manager.dragged
            &&& after.drag.drag_swap_manager == before.drag.drag_swap_manager
            &&& after.drag.drag_state == before.drag.drag_state
            &&& after == (ReactorModel { drag: after.drag, ..before })
        }),
{
}

/// When an overlay could not be shown, the error is passed on and nothing changes; when it could, it
/// is followed up.
pub proof fn failed_overlay_changes_nothing(
    before: ReactorModel,
    after: ReactorModel,
    display: DisplayId,
    hidden: Seq<WindowId>,
    visible: Seq<WindowId>,
    outcome: Result<OverlayWindow, OverlayError>,
    r: Result<OverlayFollowUp, OverlayError>,
)
    requires
        crate::actor::reactor::layout::takes_overlay_up(
            before,
            after,
            display,
            hidden,
            visible,
            outcome,
            r,
        ),
    ensures
        r is Ok <==> outcome is Ok,
        outcome is Err ==> after == before && r->Err_0 == outcome->Err_0,
        outcome is Ok ==> crate::actor::reactor::layout::follows_overlay(
            before,
            after,
            display,
            hidden,
            visible,
            outcome->Ok_0,
            r->Ok_0,
        ),
{
}

/// Whether or not an overlay could be hidden, no windows are the ones that were last raised on its
/// display; it does not count as shown when it could, and counts as before when it could not. Other
/// displays are not concerned, nor is anything else.
pub proof fn overlay_that_was_to_go_forgets_the_raised(
    before: ReactorModel,
    display: DisplayId,
    done: bool,
)
    ensures
        ({
            let after = before.with_overlay_down(display, done);
            &&& after.overlay.last_raised.contains_key(display)
                ==> after.overlay.last_raised[display].len() == 0
            &&& forall|d: usize|
                d != display ==> #[trigger] after.overlay.last_raised.get(d)
                    == before.overlay.last_raised.get(d)
            &&& done ==> after.overlay.shown.get(display) != Some(true)
            &&& !done ==> after.overlay.shown == before.overlay.shown
            &&& forall|d: usize|
                d != display ==> #[trigger] after.overlay.shown.get(d) == before.overlay.shown.get(d)
            &&& after.overlay.overlays == before.overlay.overlays
            &&& after == (ReactorModel { overlay: after.overlay, ..before })
        }),
{
}

/// A window floats exactly when that was last said of it, and is kept off the screen of the display
/// that was last said of it. Other windows are not concerned, nor is anything else.
pub proof fn window_is_as_last_said(
    before: EngineModel,
    window: WindowId,
    floating: bool,
    display: Option<DisplayId>,
    other: WindowId,
)
    ensures
        ({
            let after = before.with_floating(window, floating);
            &&& after.floating.contains(window) <==> floating
            &&& other != window ==> (after.floating.contains(other) <==> before.floating.contains(
                other,
            ))
            &&& after == (EngineModel { floating: after.floating, ..before })
        }),
        ({
            let after = before.with_offscreen(window, display);
            &&& after.offscreen.get(window) == display
            &&& other != window ==> after.offscreen.get(other) == before.offscreen.get(other)
            &&& after == (EngineModel { offscreen: after.offscreen, ..before })
        }),
{
}

/// To show the overlay of a display nothing is done when it is shown, and otherwise it is drawn last, in
/// the given frame, as the overlay that the display has. To hide it, the overlay that the display has is
/// taken out of the order when it is shown, and nothing else is done.
pub proof fn overlay_is_drawn_or_taken_out(
    reactor: ReactorModel,
    display: DisplayId,
    frame: Frame,
    plan: OverlayPlan,
)
    requires
        crate::actor::reactor::layout::plans_overlay(reactor, display, frame, plan),
    ensures
        ({
            let overlay = reactor.overlay;
            let is_shown = overlay.shown.contains_key(display) && overlay.shown[display];
            &&& plan matches OverlayPlan::Show { operations, .. } ==> {
                &&& operations@.len() == 0 <==> is_shown
                &&& !is_shown ==> operations@.last() == OverlayOperation::Draw(
                    overlay.overlays.get(display),
                    frame,
                )
                &&& !is_shown && !overlay.overlays.contains_key(display) ==> operations@[0]
                    == OverlayOperation::Create(frame)
            }
            &&& plan matches OverlayPlan::Hide { operations } ==> {
                &&& operations@.len() <= 1
                &&& operations@.len() == 1 <==> is_shown && overlay.overlays.contains_key(display)
                &&& operations@.len() == 1 ==> operations@[0] == OverlayOperation::OrderOut(
                    overlay.overlays[display],
                )
            }
        }),
{
    crate::ui::overlay_laws::showing_makes_or_redraws_the_overlay(reactor.overlay, display, frame);
    crate::ui::overlay_laws::hiding_takes_the_overlay_out(reactor.overlay, display);
}

} // verus!

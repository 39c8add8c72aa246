//! What those who ask are told, in terms of what the reactor knows.
use vstd::prelude::*;
use crate::actor::reactor::managers::Screen;
use crate::actor::reactor::query::{MenuUpdate, MetricsData, Query, QueryAnswer};
use crate::actor::reactor::state::ReactorModel;
use crate::model::geometry::Frame;
use crate::model::ids::{pid_t, DisplayId, SpaceId, VirtualWorkspaceId, WindowId};
use crate::model::manager_model::ManagerModel;
use crate::model::server::{ApplicationData, LayoutStateData, WindowData, WorkspaceData};

verus! {

/// Each window of the set of which something is known is told once, and no other window is. It is
/// told as it is known, but at the place that is given for it, if one is.
pub open spec fn told_as_known(
    told: Seq<WindowData>,
    windows: Set<WindowId>,
    data: Map<WindowId, WindowData>,
    places: Map<WindowId, Frame>,
) -> bool {
    exists|wids: Seq<WindowId>|
        {
            &&& #[trigger] wids.no_duplicates()
            &&& forall|w: WindowId| #[trigger]
                wids.contains(w) <==> windows.contains(w) && data.contains_key(w)
            &&& told.len() == wids.len()
            &&& forall|i: int|
                0 <= i < told.len() ==> {
                    &&& (#[trigger] told[i]).id == data[wids[i]].id
                    &&& told[i].title == data[wids[i]].title
                    &&& told[i].is_floating == data[wids[i]].is_floating
                    &&& told[i].is_focused == data[wids[i]].is_focused
                    &&& told[i].bundle_id == data[wids[i]].bundle_id
                    &&& told[i].window_server_id == data[wids[i]].window_server_id
                    &&& told[i].frame == if places.contains_key(wids[i]) {
                        places[wids[i]]
                    } else {
                        data[wids[i]].frame
                    }
                }
        }
}

/// What is told of a set of windows is told as it is known.
pub proof fn windows_are_told_as_known(
    told: Seq<WindowData>,
    windows: Set<WindowId>,
    data: Map<WindowId, WindowData>,
    places: Map<WindowId, Frame>,
)
    requires
        crate::actor::reactor::query::tells(told, windows, data, places),
    ensures
        told_as_known(told, windows, data, places),
{
    let wids = choose|wids: Seq<WindowId>| #[trigger]
        crate::common::sequences::enumerates(wids, windows) && told
            == crate::actor::reactor::query::told_windows(wids, data, places);
    let known = |w: WindowId| data.contains_key(w);
    let kept = wids.filter(known);
    crate::common::sequences::lemma_filter_keeps_distinct(wids, known);
    assert forall|w: WindowId| #[trigger] kept.contains(w) <==> windows.contains(w)
        && data.contains_key(w) by {
        crate::common::sequences::lemma_filter_contains(wids, known, w);
        assert(wids.to_set().contains(w) <==> wids.contains(w));
    }
    assert(kept.no_duplicates());
    assert forall|i: int| 0 <= i < told.len() implies {
        &&& (#[trigger] told[i]).id == data[kept[i]].id
        &&& told[i].title == data[kept[i]].title
        &&& told[i].is_floating == data[kept[i]].is_floating
        &&& told[i].is_focused == data[kept[i]].is_focused
        &&& told[i].bundle_id == data[kept[i]].bundle_id
        &&& told[i].window_server_id == data[kept[i]].window_server_id
        &&& told[i].frame == if places.contains_key(kept[i]) {
            places[kept[i]]
        } else {
            data[kept[i]].frame
        }
    } by {
        assert(kept.contains(kept[i]));
    }
}

/// What is told of a workspace, as it is in the state: it is one of its display's, and goes by its
/// number and its name. It is active when the display shows it. Its windows are counted and told as
/// they are known; of a workspace that is not shown, on a screen with a space, they are told where
/// they would be.
pub open spec fn told_as(
    told: WorkspaceData,
    model: ManagerModel,
    screens: Seq<Screen>,
    data: Map<WindowId, WindowData>,
    predictions: Map<VirtualWorkspaceId, Vec<(WindowId, Frame)>>,
    id: VirtualWorkspaceId,
) -> bool {
    &&& told.display < screens.len()
    &&& model.by_display.contains_key(told.display)
    &&& model.by_display[told.display].contains(id)
    &&& told.id@ == crate::model::ids::key_debug_text(id.number())
    &&& told.name@ == model.workspaces[id].name
    &&& told.is_active <==> model.active[told.display].1 == id
    &&& told.window_count == told.windows@.len()
    &&& told_as_known(
        told.windows@,
        model.workspaces[id].windows,
        data,
        if screens[told.display as int].space is Some && !told.is_active
            && predictions.contains_key(id) {
            crate::model::manager_model::overwritten(Map::empty(), predictions[id]@)
        } else {
            Map::empty()
        },
    )
}

/// What is told is told of some workspace, as it is.
pub open spec fn told_as_it_is(
    told: WorkspaceData,
    model: ManagerModel,
    screens: Seq<Screen>,
    data: Map<WindowId, WindowData>,
    predictions: Map<VirtualWorkspaceId, Vec<(WindowId, Frame)>>,
) -> bool {
    exists|id: VirtualWorkspaceId| #[trigger]
        told_as(told, model, screens, data, predictions, id)
}

/// Each workspace that is told is told as it is once all displays are in use. Nothing but the
/// workspaces has changed.
pub proof fn workspaces_are_told_as_they_are(
    before: ReactorModel,
    after: ReactorModel,
    data: Map<WindowId, WindowData>,
    predictions: Map<VirtualWorkspaceId, Vec<(WindowId, Frame)>>,
    told: Seq<WorkspaceData>,
)
    requires
        before.engine.workspaces.wf(),
        before.screens.len() <= usize::MAX,
        crate::actor::reactor::query::answers_workspaces(before, after, data, predictions, told),
    ensures
        after.engine.offscreen == before.engine.offscreen,
        after.engine.floating == before.engine.floating,
        after.engine.positioned == before.engine.positioned,
        after == (ReactorModel { engine: after.engine, ..before }),
        forall|i: int|
            0 <= i < told.len() ==> told_as_it_is(
                #[trigger] told[i],
                after.engine.workspaces,
                before.screens,
                data,
                predictions,
            ),
{
    let n = before.screens.len();
    let (states, bounds) = choose|states: Seq<ManagerModel>, bounds: Seq<int>|
        {
            &&& #[trigger] crate::actor::reactor::query::tells_displays(
                states,
                bounds,
                before.screens,
                n,
                data,
                predictions,
                told,
            )
            &&& states[0] == before.engine.workspaces
            &&& states.last() == after.engine.workspaces
        };
    assert forall|i: int| 0 <= i < told.len() implies told_as_it_is(
        #[trigger] told[i],
        after.engine.workspaces,
        before.screens,
        data,
        predictions,
    ) by {
        let d = crate::actor::reactor::query_laws::display_of(
            states,
            bounds,
            before.screens,
            n,
            data,
            predictions,
            told,
            i,
        );
        assert(crate::actor::reactor::query::tells_at(
            states,
            bounds,
            before.screens,
            data,
            predictions,
            told,
            d,
        ));
        let model = states[d + 1];
        crate::actor::reactor::query_laws::displays_stay_as_told(
            states,
            bounds,
            before.screens,
            n,
            data,
            predictions,
            told,
            d,
            n,
        );
        let at = i - bounds[d as int];
        let part = told.subrange(bounds[d as int], bounds[d + 1]);
        assert(part[at] == told[i]);
        crate::model::laws::listing_is_complete(model, d);
        crate::model::laws::listing_is_complete(after.engine.workspaces, d);
        let entry = model.listing(d)[at];
        let id = entry.0;
        assert(model.ids_on(d)[at] == id);
        assert(model.ids_on(d).contains(id));
        assert(model.owns(d, id));
        assert(crate::actor::reactor::query::tells_workspace(
            model,
            d,
            entry,
            i,
            before.screens[d as int].space is Some,
            data,
            predictions,
            part[at],
        ));
        assert(after.engine.workspaces.owns(d, id));
        assert(after.engine.workspaces.ids_on(d).contains(id));
        assert(model.active.contains_key(d));
        windows_are_told_as_known(
            told[i].windows@,
            crate::actor::reactor::query::windows_to_tell(model, d, id),
            data,
            crate::actor::reactor::query::places_for(
                model,
                d,
                id,
                before.screens[d as int].space is Some,
                predictions,
            ),
        );
        assert(told_as(
            told[i],
            after.engine.workspaces,
            before.screens,
            data,
            predictions,
            id,
        ));
    }
}

/// The windows that are told of a space are those of the workspace that its display shows, as they are
/// known. Nothing is told when no screen shows the space or its display shows no workspace.
pub proof fn shown_windows_are_told(
    model: ReactorModel,
    space: SpaceId,
    display: Option<DisplayId>,
    data: Map<WindowId, WindowData>,
    told: Seq<WindowData>,
)
    requires
        model.engine.workspaces.wf(),
        crate::actor::reactor::state::showing(model.screens, space, display),
        crate::actor::reactor::query::answers_windows(model, Some(space), data, told),
    ensures
        display is Some && model.engine.workspaces.active.contains_key(display->0)
            ==> told_as_known(
            told,
            model.engine.workspaces.workspaces[model.engine.workspaces.active[display->0].1].windows,
            data,
            Map::empty(),
        ),
        display is None || !model.engine.workspaces.active.contains_key(display->0) ==> told.len()
            == 0,
{
    let shown = choose|shown: Option<DisplayId>| #[trigger]
        crate::actor::reactor::state::showing(model.screens, space, shown) && match shown {
            Some(d) => crate::actor::reactor::query::tells(
                told,
                model.engine.shown_on(d),
                data,
                Map::empty(),
            ),
            None => told.len() == 0,
        };
    crate::actor::reactor::layout_laws::display_of_a_space_is_unique(
        model.screens,
        space,
        display,
        shown,
    );
    if let Some(d) = display {
        windows_are_told_as_known(told, model.engine.shown_on(d), data, Map::empty());
        if model.engine.workspaces.active.contains_key(d) {
            assert(model.engine.workspaces.owns(d, model.engine.workspaces.active[d].1));
        } else {
            let wids = choose|wids: Seq<WindowId>|
                {
                    &&& #[trigger] wids.no_duplicates()
                    &&& forall|w: WindowId| #[trigger]
                        wids.contains(w) <==> model.engine.shown_on(d).contains(w)
                            && data.contains_key(w)
                    &&& told.len() == wids.len()
                };
            if wids.len() > 0 {
                assert(wids.contains(wids[0]));
            }
        }
    }
}

/// When no space is given, the windows are those of the space of the first screen; without one, all
/// windows that are known are told.
pub proof fn question_without_space_is_about_the_first_screen(
    model: ReactorModel,
    data: Map<WindowId, WindowData>,
    told: Seq<WindowData>,
)
    requires
        crate::actor::reactor::query::answers_windows(model, None, data, told),
    ensures
        model.screens.len() > 0 && model.screens[0].space is Some
            ==> crate::actor::reactor::query::answers_windows(
            model,
            model.screens[0].space,
            data,
            told,
        ),
        model.screens.len() == 0 || model.screens[0].space is None ==> told_as_known(
            told,
            model.windows.dom(),
            data,
            Map::empty(),
        ),
{
    if model.screens.len() == 0 || model.screens[0].space is None {
        windows_are_told_as_known(told, model.windows.dom(), data, Map::empty());
    }
}

/// Each application is told once, and no other is: under its process and its names, with the number
/// of windows of that process. The one that owns the focused window is in front.
pub proof fn applications_are_told_as_they_are(model: ReactorModel, told: Seq<ApplicationData>)
    requires
        crate::actor::reactor::query::answers_applications(model, told),
    ensures
        forall|i: int, j: int|
            0 <= i < j < told.len() ==> (#[trigger] told[i]).pid != (#[trigger] told[j]).pid,
        forall|pid: pid_t| #[trigger]
            model.apps.contains_key(pid) ==> exists|i: int|
                0 <= i < told.len() && (#[trigger] told[i]).pid == pid,
        forall|i: int|
            0 <= i < told.len() ==> {
                let pid = (#[trigger] told[i]).pid;
                let info = model.apps[pid].info;
                &&& model.apps.contains_key(pid)
                &&& told[i].bundle_id == info.bundle_id
                &&& info.localized_name matches Some(name) ==> told[i].name@ == name@
                &&& info.localized_name is None ==> told[i].name@ == "Unknown"@
                &&& told[i].is_frontmost <==> model.main_window is Some
                    && model.main_window->0.pid == pid
                &&& forall|owned: Set<WindowId>|
                    (forall|w: WindowId| #[trigger]
                        owned.contains(w) <==> model.windows.contains_key(w) && w.pid == pid)
                        ==> told[i].window_count == #[trigger] owned.len()
            },
{
    let pids = choose|pids: Seq<pid_t>|
        {
            &&& #[trigger] crate::common::sequences::enumerates(pids, model.apps.dom())
            &&& told.len() == pids.len()
            &&& forall|i: int|
                0 <= i < told.len() ==> crate::actor::reactor::query::tells_application(
                    model,
                    pids[i],
                    model.apps[pids[i]],
                    #[trigger] told[i],
                )
        };
    assert forall|pid: pid_t| #[trigger] model.apps.contains_key(pid) implies exists|i: int|
        0 <= i < told.len() && (#[trigger] told[i]).pid == pid by {
        assert(pids.to_set().contains(pid));
        let i = choose|i: int| 0 <= i < pids.len() && pids[i] == pid;
        assert(told[i].pid == pid);
    }
    assert forall|i: int| 0 <= i < told.len() implies {
        let pid = (#[trigger] told[i]).pid;
        &&& model.apps.contains_key(pid)
        &&& forall|owned: Set<WindowId>|
            (forall|w: WindowId| #[trigger]
                owned.contains(w) <==> model.windows.contains_key(w) && w.pid == pid)
                ==> told[i].window_count == #[trigger] owned.len()
    } by {
        let pid = told[i].pid;
        assert(pids.to_set().contains(pids[i]));
        assert forall|owned: Set<WindowId>|
            (forall|w: WindowId| #[trigger]
                owned.contains(w) <==> model.windows.contains_key(w) && w.pid == pid)
            implies told[i].window_count == #[trigger] owned.len() by {
            assert(owned =~= crate::actor::reactor::query::owned_windows(
                model.windows.dom(),
                pid,
            ));
        }
    }
}

/// There is something to tell of the layout of a space exactly when the space has a number, a screen
/// shows it and its display shows a workspace. What is told goes under the number of the space, as a
/// tiling, with the focused window, and with the windows of the workspace shown there: each of them
/// among the floating ones when it floats, and among the tiled ones when it does not.
pub proof fn layout_is_told_of_the_shown_workspace(
    model: ReactorModel,
    space_id: u64,
    display: Option<DisplayId>,
    told: Option<LayoutStateData>,
)
    requires
        model.engine.workspaces.wf(),
        crate::actor::reactor::state::showing(model.screens, SpaceId { id: space_id }, display),
        crate::actor::reactor::query::answers_layout(model, space_id, told),
    ensures
        told is Some <==> space_id != 0 && display is Some
            && model.engine.workspaces.active.contains_key(display->0),
        told matches Some(state) ==> {
            let shown = model.engine.workspaces.workspaces[model.engine.workspaces.active[display->0].1].windows;
            &&& state.space_id == space_id
            &&& state.mode@ == "tiling"@
            &&& state.focused_window == model.main_window
            &&& state.floating_windows@.no_duplicates()
            &&& state.tiled_windows@.no_duplicates()
            &&& forall|w: WindowId|
                #![trigger shown.contains(w)]
                {
                    &&& state.floating_windows@.contains(w) <==> shown.contains(w)
                        && model.engine.floating.contains(w)
                    &&& state.tiled_windows@.contains(w) <==> shown.contains(w)
                        && !model.engine.floating.contains(w)
                }
        },
{
    let space = SpaceId { id: space_id };
    let found = choose|found: Option<DisplayId>| #[trigger]
        crate::actor::reactor::state::showing(model.screens, space, found) && match told {
            Some(state) => {
                &&& space_id > 0
                &&& found is Some
                &&& model.engine.workspaces.active_on(found->0) is Some
                &&& crate::actor::reactor::query::tells_layout(model, space_id, found->0, state)
            },
            None => space_id == 0 || found is None || model.engine.workspaces.active_on(
                found->0,
            ) is None,
        };
    crate::actor::reactor::layout_laws::display_of_a_space_is_unique(
        model.screens,
        space,
        display,
        found,
    );
    if let Some(state) = told {
        let d = display->0;
        crate::actor::reactor::query_laws::windows_float_or_are_tiled(model, space_id, d, state);
        assert(model.engine.workspaces.owns(d, model.engine.workspaces.active[d].1));
        let shown = model.engine.workspaces.workspaces[model.engine.workspaces.active[d].1].windows;
        assert(model.engine.shown_on(d) == shown);
    }
}

/// The figures count the windows, workspaces, applications and screens that there are. The windows of
/// each workspace are counted once, under the text of its id.
pub proof fn figures_count_what_there_is(model: ReactorModel, told: MetricsData)
    requires
        crate::actor::reactor::query::answers_metrics(model, told),
    ensures
        told.windows_managed == model.windows.dom().len(),
        told.workspaces == model.engine.workspaces.workspaces.dom().len(),
        told.applications == model.apps.dom().len(),
        told.screens == model.screens.len(),
        windows_are_counted(model.engine.workspaces, told.workspace_stats@),
{
    counts_go_by_workspace(model.engine.workspaces, told.workspace_stats@);
}

/// The windows of each workspace are counted once.
pub open spec fn windows_are_counted(model: ManagerModel, told: Seq<(String, usize)>) -> bool {
    exists|ids: Seq<VirtualWorkspaceId>|
        {
            &&& #[trigger] ids.no_duplicates()
            &&& forall|id: VirtualWorkspaceId| #[trigger]
                ids.contains(id) <==> model.workspaces.contains_key(id)
            &&& told.len() == ids.len()
            &&& forall|i: int|
                0 <= i < told.len() ==> {
                    &&& (#[trigger] told[i]).0@ == crate::model::ids::key_debug_text(
                        ids[i].number(),
                    )
                    &&& told[i].1 == model.workspaces[ids[i]].windows.len()
                }
        }
}

/// The windows of each workspace are counted once, under the text of its id.
pub proof fn counts_go_by_workspace(model: ManagerModel, told: Seq<(String, usize)>)
    requires
        crate::actor::reactor::query::tells_counts(model, told),
    ensures
        windows_are_counted(model, told),
{
    let ids = choose|ids: Seq<VirtualWorkspaceId>|
        {
            &&& #[trigger] crate::common::sequences::enumerates(ids, model.workspaces.dom())
            &&& told.len() == ids.len()
            &&& forall|i: int|
                0 <= i < told.len() ==> {
                    &&& (#[trigger] told[i]).0@ == crate::model::ids::key_debug_text(
                        ids[i].number(),
                    )
                    &&& told[i].1 == model.workspaces[ids[i]].windows.len()
                }
        };
    assert forall|id: VirtualWorkspaceId| #[trigger]
        ids.contains(id) <==> model.workspaces.contains_key(id) by {
        assert(ids.to_set().contains(id) <==> ids.contains(id));
    }
    assert(ids.no_duplicates());
}

/// Every question gets the answer that belongs to it, and what is no question gets none. Only a
/// question about the workspaces changes anything. Of one window what is known is told.
pub proof fn questions_get_their_answers(
    before: ReactorModel,
    after: ReactorModel,
    query: Query,
    data: Map<WindowId, WindowData>,
    predictions: Map<VirtualWorkspaceId, Vec<(WindowId, Frame)>>,
    r: Option<QueryAnswer>,
)
    requires
        crate::actor::reactor::query::answers(before, after, query, data, predictions, r),
    ensures
        query is Other <==> r is None,
        query is Workspaces <==> r is Some && r->0 is Workspaces,
        query is Windows <==> r is Some && r->0 is Windows,
        query is WindowInfo <==> r is Some && r->0 is WindowInfo,
        query is Applications <==> r is Some && r->0 is Applications,
        query is LayoutState <==> r is Some && r->0 is LayoutState,
        query is Metrics <==> r is Some && r->0 is Metrics,
        !(query is Workspaces) ==> after == before,
        query matches Query::WindowInfo { window_id } ==> {
            &&& r matches Some(QueryAnswer::WindowInfo(told))
            &&& told is Some <==> data.contains_key(window_id)
            &&& told is Some ==> told->0 == data[window_id]
        },
{
}

/// The menu bar is told exactly when there is one and a space is active: that of the focused window,
/// or else that of the first screen. It is told of all workspaces, of the windows shown on the active
/// space and of the workspace that the display of the space shows.
pub proof fn menu_is_told_of_the_active_space(
    before: ReactorModel,
    after: ReactorModel,
    main_window_space: Option<SpaceId>,
    data: Map<WindowId, WindowData>,
    predictions: Map<VirtualWorkspaceId, Vec<(WindowId, Frame)>>,
    r: Option<MenuUpdate>,
    display: Option<DisplayId>,
)
    requires
        crate::actor::reactor::query::updates_menu(
            before,
            after,
            main_window_space,
            data,
            predictions,
            r,
        ),
        r matches Some(update) ==> crate::actor::reactor::state::showing(
            before.screens,
            update.active_space,
            display,
        ),
    ensures
        r is Some <==> before.menu.menu_tx is Some && (main_window_space is Some || (
        before.screens.len() > 0 && before.screens[0].space is Some)),
        r is None ==> after == before,
        r matches Some(update) ==> {
            &&& main_window_space is Some ==> Some(update.active_space) == main_window_space
            &&& main_window_space is None ==> Some(update.active_space) == before.screens[0].space
            &&& crate::actor::reactor::query::answers_workspaces(
                before,
                after,
                data,
                predictions,
                update.workspaces@,
            )
            &&& crate::actor::reactor::query::answers_windows(
                after,
                Some(update.active_space),
                data,
                update.windows@,
            )
            &&& display is Some && after.engine.workspaces.active.contains_key(display->0)
                ==> update.active_workspace == Some(after.engine.workspaces.active[display->0].1)
            &&& display is None || !after.engine.workspaces.active.contains_key(display->0)
                ==> update.active_workspace is None
        },
{
    if let Some(update) = r {
        let found = choose|found: Option<DisplayId>| #[trigger]
            crate::actor::reactor::state::showing(before.screens, update.active_space, found)
                && update.active_workspace == match found {
                Some(d) => after.engine.workspaces.active_on(d),
                None => None,
            };
        crate::actor::reactor::layout_laws::display_of_a_space_is_unique(
            before.screens,
            update.active_space,
            display,
            found,
        );
    }
}

} // verus!

//! Answers to questions about workspaces, windows and applications.
//!
//! What a window is told as comes from its application, and where the windows of a workspace that
//! is not shown would be comes from the layout; both are handed in.
use vstd::prelude::*;
use crate::actor::reactor::managers::{AppState, Screen};
use crate::actor::reactor::state::{Reactor, ReactorModel};
use crate::common::collections::{map_keys, VecMap};
use crate::common::text::copied;
use crate::layout_engine::EngineModel;
use crate::model::geometry::Frame;
use crate::model::ids::{pid_t, DisplayId, SpaceId, VirtualWorkspaceId, WindowId};
use crate::model::manager_model::ManagerModel;
use crate::model::server::{
    ApplicationData, LayoutStateData, WindowData, WorkspaceData, WorkspaceQueryResponse,
};

verus! {

/// A question.
#[allow(inconsistent_fields)]
#[derive(Debug, Clone, Copy, PartialEq, Eq, Structural)]
pub enum Query {
    Workspaces,
    Windows { space_id: Option<SpaceId> },
    WindowInfo { window_id: WindowId },
    Applications,
    LayoutState { space_id: u64 },
    Metrics,
    /// An event that is no question.
    Other,
}

/// The answer to a question.
#[derive(Debug)]
pub enum QueryAnswer {
    Workspaces(WorkspaceQueryResponse),
    Windows(Vec<WindowData>),
    WindowInfo(Option<WindowData>),
    Applications(Vec<ApplicationData>),
    LayoutState(Option<LayoutStateData>),
    Metrics(MetricsData),
}

/// Figures about what is managed.
#[derive(Debug)]
pub struct MetricsData {
    pub windows_managed: usize,
    pub workspaces: usize,
    pub applications: usize,
    pub screens: usize,
    /// The number of windows of each workspace.
    pub workspace_stats: Vec<(String, usize)>,
}

/// What the menu bar is told.
#[derive(Debug)]
pub struct MenuUpdate {
    pub active_space: SpaceId,
    pub workspaces: Vec<WorkspaceData>,
    pub active_workspace: Option<VirtualWorkspaceId>,
    pub windows: Vec<WindowData>,
}

/// Where the windows of each workspace would be if it were shown. Of two places for one window
/// the latter counts.
pub type Predictions = VecMap<VirtualWorkspaceId, Vec<(WindowId, Frame)>>;

/// What is told of a window that something is known of.
pub open spec fn told_window(
    data: Map<WindowId, WindowData>,
    places: Map<WindowId, Frame>,
    w: WindowId,
) -> WindowData {
    if places.contains_key(w) {
        WindowData { frame: places[w], ..data[w] }
    } else {
        data[w]
    }
}

/// What is told of windows, in order: a window of which nothing is known is left out.
pub open spec fn told_windows(
    wids: Seq<WindowId>,
    data: Map<WindowId, WindowData>,
    places: Map<WindowId, Frame>,
) -> Seq<WindowData> {
    wids.filter(|w: WindowId| data.contains_key(w)).map_values(
        |w: WindowId| told_window(data, places, w),
    )
}

/// Each window of the set is told once; the order is left open.
pub open spec fn tells(
    told: Seq<WindowData>,
    windows: Set<WindowId>,
    data: Map<WindowId, WindowData>,
    places: Map<WindowId, Frame>,
) -> bool {
    exists|wids: Seq<WindowId>| #[trigger]
        crate::common::sequences::enumerates(wids, windows) && told == told_windows(
            wids,
            data,
            places,
        )
}

/// The windows that are told of a workspace.
pub open spec fn windows_to_tell(model: ManagerModel, display: DisplayId, id: VirtualWorkspaceId) -> Set<
    WindowId,
> {
    if model.active_on(display) == Some(id) || model.owns(display, id) {
        model.workspaces[id].windows
    } else {
        Set::empty()
    }
}

/// Where the windows of a workspace would be: known of one that is not shown, on a screen with a
/// space.
pub open spec fn places_for(
    model: ManagerModel,
    display: DisplayId,
    id: VirtualWorkspaceId,
    has_space: bool,
    predictions: Map<VirtualWorkspaceId, Vec<(WindowId, Frame)>>,
) -> Map<WindowId, Frame> {
    if has_space && model.active_on(display) != Some(id) && predictions.contains_key(id) {
        crate::model::manager_model::overwritten(Map::empty(), predictions[id]@)
    } else {
        Map::empty()
    }
}

/// What is told of a workspace.
pub open spec fn tells_workspace(
    model: ManagerModel,
    display: DisplayId,
    entry: (VirtualWorkspaceId, Seq<char>),
    index: int,
    has_space: bool,
    data: Map<WindowId, WindowData>,
    predictions: Map<VirtualWorkspaceId, Vec<(WindowId, Frame)>>,
    told: WorkspaceData,
) -> bool {
    &&& told.id@ == crate::model::ids::key_debug_text(entry.0.number())
    &&& told.name@ == entry.1
    &&& told.index == index
    &&& told.display == display
    &&& told.is_active == (model.active_on(display) == Some(entry.0))
    &&& told.window_count == told.windows@.len()
    &&& tells(
        told.windows@,
        windows_to_tell(model, display, entry.0),
        data,
        places_for(model, display, entry.0, has_space, predictions),
    )
}

/// The workspaces of a display are told in order, the first under that index.
pub open spec fn tells_display(
    model: ManagerModel,
    display: DisplayId,
    first: int,
    has_space: bool,
    data: Map<WindowId, WindowData>,
    predictions: Map<VirtualWorkspaceId, Vec<(WindowId, Frame)>>,
    told: Seq<WorkspaceData>,
) -> bool {
    let listing = model.listing(display);
    &&& told.len() == listing.len()
    &&& forall|i: int|
        0 <= i < told.len() ==> tells_workspace(
            model,
            display,
            listing[i],
            first + i,
            has_space,
            data,
            predictions,
            #[trigger] told[i],
        )
}

/// A display is put in use and its workspaces are told. The states before and after that and the
/// positions where what is told of a display begins and ends stand in lists, by display.
pub open spec fn tells_at(
    states: Seq<ManagerModel>,
    bounds: Seq<int>,
    screens: Seq<Screen>,
    data: Map<WindowId, WindowData>,
    predictions: Map<VirtualWorkspaceId, Vec<(WindowId, Frame)>>,
    told: Seq<WorkspaceData>,
    d: DisplayId,
) -> bool {
    &&& 0 <= bounds[d as int] <= bounds[d + 1] <= told.len()
    &&& states[d as int].initializes(states[d + 1], d)
    &&& tells_display(
        states[d + 1],
        d,
        bounds[d as int],
        screens[d as int].space is Some,
        data,
        predictions,
        told.subrange(bounds[d as int], bounds[d + 1]),
    )
}

/// The workspaces of the first `n` displays are told, display by display; each display is put in
/// use before it is told of.
pub open spec fn tells_displays(
    states: Seq<ManagerModel>,
    bounds: Seq<int>,
    screens: Seq<Screen>,
    n: nat,
    data: Map<WindowId, WindowData>,
    predictions: Map<VirtualWorkspaceId, Vec<(WindowId, Frame)>>,
    told: Seq<WorkspaceData>,
) -> bool {
    &&& states.len() == n + 1
    &&& bounds.len() == n + 1
    &&& bounds[0] == 0
    &&& bounds[n as int] == told.len()
    &&& forall|d: DisplayId|
        d < n ==> #[trigger] tells_at(states, bounds, screens, data, predictions, told, d)
}

/// The answer to a question about all workspaces.
pub open spec fn answers_workspaces(
    before: ReactorModel,
    after: ReactorModel,
    data: Map<WindowId, WindowData>,
    predictions: Map<VirtualWorkspaceId, Vec<(WindowId, Frame)>>,
    told: Seq<WorkspaceData>,
) -> bool {
    &&& after == (ReactorModel {
        engine: EngineModel { workspaces: after.engine.workspaces, ..before.engine },
        ..before
    })
    &&& exists|states: Seq<ManagerModel>, bounds: Seq<int>|
        {
            &&& #[trigger] tells_displays(
                states,
                bounds,
                before.screens,
                before.screens.len(),
                data,
                predictions,
                told,
            )
            &&& states[0] == before.engine.workspaces
            &&& states.last() == after.engine.workspaces
        }
}

/// The windows that are shown on a space are told; there are none when no screen shows it.
pub open spec fn tells_space(
    model: ReactorModel,
    space: SpaceId,
    data: Map<WindowId, WindowData>,
    told: Seq<WindowData>,
) -> bool {
    exists|display: Option<DisplayId>| #[trigger]
        crate::actor::reactor::state::showing(model.screens, space, display) && match display {
            Some(d) => tells(told, model.engine.shown_on(d), data, Map::empty()),
            None => told.len() == 0,
        }
}

/// The answer to a question about windows: those shown on a space, or on the first screen when
/// none is given, or all when that shows none.
pub open spec fn answers_windows(
    model: ReactorModel,
    space_id: Option<SpaceId>,
    data: Map<WindowId, WindowData>,
    told: Seq<WindowData>,
) -> bool {
    let target = if space_id is Some {
        space_id
    } else {
        crate::actor::reactor::state::first_space(model.screens)
    };
    match target {
        Some(space) => tells_space(model, space, data, told),
        None => tells(told, model.windows.dom(), data, Map::empty()),
    }
}

/// The windows of a process.
pub open spec fn owned_windows(windows: Set<WindowId>, pid: pid_t) -> Set<WindowId> {
    windows.filter(|w: WindowId| w.pid == pid)
}

/// What is told of an application.
pub open spec fn tells_application(
    model: ReactorModel,
    pid: pid_t,
    app: AppState,
    told: ApplicationData,
) -> bool {
    &&& told.pid == pid
    &&& told.bundle_id == app.info.bundle_id
    &&& told.name@ == match app.info.localized_name {
        Some(name) => name@,
        None => "Unknown"@,
    }
    &&& told.is_frontmost == (model.main_window is Some && model.main_window->0.pid == pid)
    &&& told.window_count == owned_windows(model.windows.dom(), pid).len()
}

/// Each application is told once; the order is left open.
pub open spec fn answers_applications(model: ReactorModel, told: Seq<ApplicationData>) -> bool {
    exists|pids: Seq<pid_t>|
        {
            &&& #[trigger] crate::common::sequences::enumerates(pids, model.apps.dom())
            &&& told.len() == pids.len()
            &&& forall|i: int|
                0 <= i < told.len() ==> tells_application(
                    model,
                    pids[i],
                    model.apps[pids[i]],
                    #[trigger] told[i],
                )
        }
}

/// What is told of the layout of a space that is shown on a display: each window of the workspace
/// shown there is told once, as floating or as tiled.
pub open spec fn tells_layout(
    model: ReactorModel,
    space_id: u64,
    display: DisplayId,
    told: LayoutStateData,
) -> bool {
    &&& told.space_id == space_id
    &&& told.mode@ == "tiling"@
    &&& told.focused_window == model.main_window
    &&& exists|wids: Seq<WindowId>|
        {
            &&& #[trigger] crate::common::sequences::enumerates(
                wids,
                model.engine.shown_on(display),
            )
            &&& told.floating_windows@ == wids.filter(
                |w: WindowId| model.engine.floating.contains(w),
            )
            &&& told.tiled_windows@ == wids.filter(
                |w: WindowId| !model.engine.floating.contains(w),
            )
        }
}

/// The answer to a question about the layout of a space: there is one when a display shows the
/// space and a workspace, and the space has a number.
pub open spec fn answers_layout(
    model: ReactorModel,
    space_id: u64,
    told: Option<LayoutStateData>,
) -> bool {
    exists|display: Option<DisplayId>| #[trigger]
        crate::actor::reactor::state::showing(model.screens, SpaceId { id: space_id }, display)
            && match told {
            Some(state) => {
                &&& space_id > 0
                &&& display is Some
                &&& model.engine.workspaces.active_on(display->0) is Some
                &&& tells_layout(model, space_id, display->0, state)
            },
            None => space_id == 0 || display is None || model.engine.workspaces.active_on(
                display->0,
            ) is None,
        }
}

/// The figures about what is managed. The order of the workspaces is left open.
pub open spec fn answers_metrics(model: ReactorModel, told: MetricsData) -> bool {
    &&& told.windows_managed == model.windows.len()
    &&& told.workspaces == model.engine.workspaces.workspaces.len()
    &&& told.applications == model.apps.len()
    &&& told.screens == model.screens.len()
    &&& tells_counts(model.engine.workspaces, told.workspace_stats@)
}

/// The number of windows of each workspace is told once, under the text of its id.
pub open spec fn tells_counts(model: ManagerModel, told: Seq<(String, usize)>) -> bool {
    exists|ids: Seq<VirtualWorkspaceId>|
        {
            &&& #[trigger] crate::common::sequences::enumerates(ids, model.workspaces.dom())
            &&& told.len() == ids.len()
            &&& forall|i: int|
                0 <= i < told.len() ==> {
                    &&& (#[trigger] told[i]).0@ == crate::model::ids::key_debug_text(
                        ids[i].number(),
                    )
                    &&& told[i].1 == model.workspaces[ids[i]].windows.len()
                }
        }
}

/// The answer to a question. Only one about the workspaces changes anything.
pub open spec fn answers(
    before: ReactorModel,
    after: ReactorModel,
    query: Query,
    data: Map<WindowId, WindowData>,
    predictions: Map<VirtualWorkspaceId, Vec<(WindowId, Frame)>>,
    r: Option<QueryAnswer>,
) -> bool {
    &&& !(query is Workspaces) ==> after == before
    &&& match query {
        Query::Workspaces => {
            &&& r matches Some(QueryAnswer::Workspaces(told))
            &&& answers_workspaces(before, after, data, predictions, told.workspaces@)
        },
        Query::Windows { space_id } => {
            &&& r matches Some(QueryAnswer::Windows(told))
            &&& answers_windows(before, space_id, data, told@)
        },
        Query::WindowInfo { window_id } => r == Some(QueryAnswer::WindowInfo(data.get(window_id))),
        Query::Applications => {
            &&& r matches Some(QueryAnswer::Applications(told))
            &&& answers_applications(before, told@)
        },
        Query::LayoutState { space_id } => {
            &&& r matches Some(QueryAnswer::LayoutState(told))
            &&& answers_layout(before, space_id, told)
        },
        Query::Metrics => {
            &&& r matches Some(QueryAnswer::Metrics(told))
            &&& answers_metrics(before, told)
        },
        Query::Other => r is None,
    }
}

/// What the menu bar is told: nothing when there is none or when no space is active.
pub open spec fn updates_menu(
    before: ReactorModel,
    after: ReactorModel,
    main_window_space: Option<SpaceId>,
    data: Map<WindowId, WindowData>,
    predictions: Map<VirtualWorkspaceId, Vec<(WindowId, Frame)>>,
    r: Option<MenuUpdate>,
) -> bool {
    let active = if main_window_space is Some {
        main_window_space
    } else {
        crate::actor::reactor::state::first_space(before.screens)
    };
    match r {
        None => {
            &&& before.menu.menu_tx is None || active is None
            &&& after == before
        },
        Some(update) => {
            &&& before.menu.menu_tx is Some
            &&& active == Some(update.active_space)
            &&& answers_workspaces(before, after, data, predictions, update.workspaces@)
            &&& answers_windows(after, active, data, update.windows@)
            &&& exists|display: Option<DisplayId>| #[trigger]
                crate::actor::reactor::state::showing(
                    before.screens,
                    update.active_space,
                    display,
                ) && update.active_workspace == match display {
                    Some(d) => after.engine.workspaces.active_on(d),
                    None => None,
                }
        },
    }
}

/// What is told of windows, in order.
pub(crate) fn tell_windows(
    wids: &Vec<WindowId>,
    data: &VecMap<WindowId, WindowData>,
    places: &VecMap<WindowId, Frame>,
) -> (r: Vec<WindowData>)
    ensures
        r@ == told_windows(wids@, data@, places@),
{
    let ghost known = |w: WindowId| data@.contains_key(w);
    let ghost told = |w: WindowId| told_window(data@, places@, w);
    let mut r: Vec<WindowData> = Vec::new();
    let mut i: usize = 0;
    reveal(Seq::filter);
    assert(r@ =~= wids@.take(0).filter(known).map_values(told));
    while i < wids.len()
        invariant
            i <= wids@.len(),
            known == |w: WindowId| data@.contains_key(w),
            told == |w: WindowId| told_window(data@, places@, w),
            r@ == wids@.take(i as int).filter(known).map_values(told),
        decreases wids@.len() - i,
    {
        let wid = wids[i];
        proof {
            let kept = wids@.take(i as int).filter(known);
            crate::common::sequences::lemma_filter_step(wids@, i as int, known);
            assert(kept.push(wid).map_values(told) =~= kept.map_values(told).push(told(wid)));
        }
        if let Some(window) = data.get(&wid) {
            let mut window = window.clone();
            if let Some(place) = places.get(&wid) {
                window.frame = *place;
            }
            r.push(window);
        }
        i += 1;
    }
    assert(wids@.take(wids@.len() as int) =~= wids@);
    r
}

/// The places of windows by window; of two places for one window the latter counts.
fn places_by_window(entries: &Vec<(WindowId, Frame)>) -> (r: VecMap<WindowId, Frame>)
    ensures
        r@ == crate::model::manager_model::overwritten(Map::empty(), entries@),
{
    let mut r: VecMap<WindowId, Frame> = VecMap::new();
    let mut i: usize = 0;
    while i < entries.len()
        invariant
            i <= entries@.len(),
            r@ == crate::model::manager_model::overwritten(Map::empty(), entries@.take(i as int)),
        decreases entries@.len() - i,
    {
        r.insert(entries[i].0, entries[i].1);
        assert(entries@.take(i + 1).drop_last() =~= entries@.take(i as int));
        i += 1;
    }
    assert(entries@.take(entries@.len() as int) =~= entries@);
    r
}

impl Reactor {
    /// Answers a question.
    pub fn handle_query(
        &mut self,
        query: Query,
        data: &VecMap<WindowId, WindowData>,
        predictions: &Predictions,
    ) -> (r: Option<QueryAnswer>)
        requires
            query is Workspaces ==> old(self)@.engine.workspaces.fits_below(
                old(self)@.screens.len(),
            ),
        ensures
            answers(old(self)@, final(self)@, query, data@, predictions@, r),
    {
        match query {
            Query::Workspaces => {
                Some(QueryAnswer::Workspaces(self.handle_workspace_query(data, predictions)))
            },
            Query::Windows { space_id } => {
                Some(QueryAnswer::Windows(self.handle_windows_query(space_id, data)))
            },
            Query::WindowInfo { window_id } => {
                Some(QueryAnswer::WindowInfo(self.handle_window_info_query(window_id, data)))
            },
            Query::Applications => {
                Some(QueryAnswer::Applications(self.handle_applications_query()))
            },
            Query::LayoutState { space_id } => {
                Some(QueryAnswer::LayoutState(self.handle_layout_state_query(space_id)))
            },
            Query::Metrics => Some(QueryAnswer::Metrics(self.handle_metrics_query())),
            Query::Other => None,
        }
    }

    /// What the menu bar is to be told; nothing when there is none or when no space is active.
    /// The space of the focused window is handed in.
    #[verifier::spinoff_prover]
    pub fn maybe_send_menu_update(
        &mut self,
        main_window_space: Option<SpaceId>,
        data: &VecMap<WindowId, WindowData>,
        predictions: &Predictions,
    ) -> (r: Option<MenuUpdate>)
        requires
            old(self)@.engine.workspaces.fits_below(old(self)@.screens.len()),
        ensures
            updates_menu(old(self)@, final(self)@, main_window_space, data@, predictions@, r),
    {
        if self.menu_manager.menu_tx.is_none() {
            return None;
        }
        let active = if main_window_space.is_some() {
            main_window_space
        } else if self.space_manager.screens.len() > 0 {
            self.space_manager.screens[0].space
        } else {
            None
        };
        let active_space = match active {
            Some(space) => space,
            None => {
                return None;
            },
        };
        let workspaces = self.handle_workspace_query(data, predictions).workspaces;
        assert(answers_workspaces(old(self)@, self@, data@, predictions@, workspaces@));
        let display = self.display_for_space(active_space);
        let active_workspace = match display {
            Some(d) => self.layout_manager.layout_engine.active_workspace(d),
            None => None,
        };
        let windows = self.handle_windows_query(Some(active_space), data);
        assert(answers_windows(self@, active, data@, windows@));
        assert(crate::actor::reactor::state::showing(old(self)@.screens, active_space, display));
        Some(MenuUpdate { active_space, workspaces, active_workspace, windows })
    }

    /// What is told of one workspace of a display.
    fn tell_workspace(
        &self,
        display: DisplayId,
        id: VirtualWorkspaceId,
        name: String,
        index: usize,
        data: &VecMap<WindowId, WindowData>,
        predictions: &Predictions,
    ) -> (r: WorkspaceData)
        requires
            display < self@.screens.len(),
            self@.engine.workspaces.workspaces.contains_key(id),
        ensures
            tells_workspace(
                self@.engine.workspaces,
                display,
                (id, name@),
                index as int,
                self@.screens[display as int].space is Some,
                data@,
                predictions@,
                r,
            ),
    {
        let engine = &self.layout_manager.layout_engine;
        let ghost model = engine@.workspaces;
        let has_space = self.space_manager.screens[display].space.is_some();
        let is_active = engine.active_workspace(display) == Some(id);
        let wids = if is_active {
            engine.windows_in_active_workspace(display)
        } else {
            match engine.virtual_workspace_manager().workspace_info(display, id) {
                Some(workspace) => workspace.windows(),
                None => Vec::new(),
            }
        };
        assert(wids@.len() == 0 ==> wids@.to_set() =~= Set::<WindowId>::empty());
        assert(crate::common::sequences::enumerates(
            wids@,
            windows_to_tell(model, display, id),
        ));
        let places = if has_space && !is_active {
            match predictions.get(&id) {
                Some(entries) => places_by_window(entries),
                None => VecMap::new(),
            }
        } else {
            VecMap::new()
        };
        let windows = tell_windows(&wids, data, &places);
        WorkspaceData {
            id: id.to_debug_string(),
            index,
            name,
            display,
            is_active,
            window_count: windows.len(),
            windows,
        }
    }

    /// Tells of the workspaces of all displays, with consecutive indices.
    pub fn handle_workspace_query(
        &mut self,
        data: &VecMap<WindowId, WindowData>,
        predictions: &Predictions,
    ) -> (r: WorkspaceQueryResponse)
        requires
            old(self)@.engine.workspaces.fits_below(old(self)@.screens.len()),
        ensures
            answers_workspaces(old(self)@, final(self)@, data@, predictions@, r.workspaces@),
    {
        let ghost before = self@;
        let ghost start = self@.engine.workspaces;
        let mut workspaces: Vec<WorkspaceData> = Vec::new();
        let displays = self.space_manager.screens.len();
        let ghost mut states: Seq<ManagerModel> = seq![start];
        let ghost mut bounds: Seq<int> = seq![0];
        let mut display: usize = 0;
        while display < displays
            invariant
                display <= displays,
                displays == before.screens.len(),
                start == before.engine.workspaces,
                start.fits_below(displays as nat),
                self@ == (ReactorModel {
                    engine: EngineModel { workspaces: self@.engine.workspaces, ..before.engine },
                    ..before
                }),
                self@.engine.workspaces.settings == start.settings,
                self@.engine.workspaces.workspaces.len() == start.workspaces.len()
                    + start.pending_below(display as nat),
                forall|d: DisplayId|
                    d >= display ==> (#[trigger] self@.engine.workspaces.by_display.contains_key(d)
                        <==> start.by_display.contains_key(d)),
                tells_displays(
                    states,
                    bounds,
                    before.screens,
                    display as nat,
                    data@,
                    predictions@,
                    workspaces@,
                ),
                states[0] == start,
                states.last() == self@.engine.workspaces,
            decreases displays - display,
        {
            let ghost between = self@.engine.workspaces;
            let ghost told = workspaces@;
            proof {
                crate::model::manager_model::lemma_pending_below(
                    start,
                    (display + 1) as nat,
                    displays as nat,
                );
                assert(between.by_display.contains_key(display) <==> start.by_display.contains_key(
                    display,
                ));
                assert(between.pending(display) == start.pending(display));
            }
            let listed =
                self.layout_manager.layout_engine.virtual_workspace_manager_mut().list_workspaces(
                display,
            );
            let ghost model = self@.engine.workspaces;
            let ghost listing = listed@.map_values(
                |e: (VirtualWorkspaceId, String)| (e.0, e.1@),
            );
            assert(listing.len() == listed@.len());
            assert(listing == model.listing(display));
            let ghost has_space = before.screens[display as int].space is Some;
            let mut i: usize = 0;
            while i < listed.len()
                invariant
                    i <= listed@.len(),
                    display < displays,
                    displays == before.screens.len(),
                    has_space == (before.screens[display as int].space is Some),
                    self@ == (ReactorModel {
                        engine: EngineModel { workspaces: model, ..before.engine },
                        ..before
                    }),
                    listing == listed@.map_values(
                        |e: (VirtualWorkspaceId, String)| (e.0, e.1@),
                    ),
                    listing == model.listing(display),
                    listing.len() == listed@.len(),
                    workspaces@.len() == told.len() + i,
                    forall|j: int| 0 <= j < told.len() ==> workspaces@[j] == told[j],
                    forall|j: int|
                        0 <= j < i ==> tells_workspace(
                            model,
                            display,
                            listing[j],
                            told.len() + j,
                            has_space,
                            data@,
                            predictions@,
                            #[trigger] workspaces@[told.len() + j],
                        ),
                decreases listed@.len() - i,
            {
                let index = workspaces.len();
                let id = listed[i].0;
                proof {
                    assert(listing[i as int] == (id, listed@[i as int].1@));
                    crate::model::manager_model::lemma_listed_exist(model, display, i as int);
                }
                let workspace = self.tell_workspace(
                    display,
                    id,
                    listed[i].1.clone(),
                    index,
                    data,
                    predictions,
                );
                workspaces.push(workspace);
                i += 1;
            }
            proof {
                let k = told.len() as int;
                let old_states = states;
                let old_bounds = bounds;
                states = states.push(model);
                bounds = bounds.push(workspaces@.len() as int);
                let here = workspaces@.subrange(k, workspaces@.len() as int);
                assert forall|j: int| 0 <= j < here.len() implies tells_workspace(
                    model,
                    display,
                    listing[j],
                    k + j,
                    has_space,
                    data@,
                    predictions@,
                    #[trigger] here[j],
                ) by {
                    assert(here[j] == workspaces@[told.len() + j]);
                }
                assert(tells_display(model, display, k, has_space, data@, predictions@, here));
                assert forall|d: DisplayId| d < display + 1 implies #[trigger] tells_at(
                    states,
                    bounds,
                    before.screens,
                    data@,
                    predictions@,
                    workspaces@,
                    d,
                ) by {
                    if d < display {
                        assert(tells_at(
                            old_states,
                            old_bounds,
                            before.screens,
                            data@,
                            predictions@,
                            told,
                            d,
                        ));
                        assert(told.subrange(old_bounds[d as int], old_bounds[d + 1])
                            =~= workspaces@.subrange(bounds[d as int], bounds[d + 1]));
                    }
                }
            }
            display += 1;
        }
        WorkspaceQueryResponse { workspaces }
    }

    /// Tells of the windows that are shown on a space, or on the first screen when none is given,
    /// or of all windows when that shows none.
    pub fn handle_windows_query(
        &self,
        space_id: Option<SpaceId>,
        data: &VecMap<WindowId, WindowData>,
    ) -> (r: Vec<WindowData>)
        ensures
            answers_windows(self@, space_id, data@, r@),
    {
        let nowhere: VecMap<WindowId, Frame> = VecMap::new();
        let target = if space_id.is_some() {
            space_id
        } else if self.space_manager.screens.len() > 0 {
            self.space_manager.screens[0].space
        } else {
            None
        };
        match target {
            Some(space) => {
                let display = self.display_for_space(space);
                assert(crate::actor::reactor::state::showing(self@.screens, space, display));
                match display {
                    Some(d) => {
                        let wids = self.layout_manager.layout_engine.windows_in_active_workspace(d);
                        tell_windows(&wids, data, &nowhere)
                    },
                    None => Vec::new(),
                }
            },
            None => {
                let wids = self.window_manager.windows.keys();
                assert(wids@.to_set() =~= self@.windows.dom());
                assert(crate::common::sequences::enumerates(wids@, self@.windows.dom()));
                tell_windows(&wids, data, &nowhere)
            },
        }
    }

    /// Tells of a window.
    pub fn handle_window_info_query(
        &self,
        window_id: WindowId,
        data: &VecMap<WindowId, WindowData>,
    ) -> (r: Option<WindowData>)
        ensures
            r == data@.get(window_id),
    {
        match data.get(&window_id) {
            Some(window) => Some(window.clone()),
            None => None,
        }
    }

    /// The number of windows of a process.
    fn count_windows(&self, pid: pid_t) -> (r: usize)
        ensures
            r == owned_windows(self@.windows.dom(), pid).len(),
    {
        let all = self.window_manager.windows.keys();
        let ghost own = |w: WindowId| w.pid == pid;
        let mut count: usize = 0;
        let mut i: usize = 0;
        reveal(Seq::filter);
        while i < all.len()
            invariant
                i <= all@.len(),
                count <= i,
                own == |w: WindowId| w.pid == pid,
                count == all@.take(i as int).filter(own).len(),
            decreases all@.len() - i,
        {
            proof {
                crate::common::sequences::lemma_filter_step(all@, i as int, own);
            }
            if all[i].pid == pid {
                count += 1;
            }
            i += 1;
        }
        proof {
            assert(all@.take(all@.len() as int) =~= all@);
            assert(all@.to_set() =~= self@.windows.dom());
            crate::common::sequences::lemma_filter_enumerates(
                all@,
                self@.windows.dom(),
                own,
                owned_windows(self@.windows.dom(), pid),
            );
            all@.filter(own).unique_seq_to_set();
        }
        count
    }

    /// Tells of the applications.
    pub fn handle_applications_query(&self) -> (r: Vec<ApplicationData>)
        ensures
            answers_applications(self@, r@),
    {
        let pids = map_keys(&self.app_manager.apps);
        let mut r: Vec<ApplicationData> = Vec::new();
        let mut i: usize = 0;
        assert(pids@.to_set() =~= self@.apps.dom());
        while i < pids.len()
            invariant
                i <= pids@.len(),
                r@.len() == i,
                pids@.to_set() == self@.apps.dom(),
                forall|j: int|
                    0 <= j < i ==> tells_application(
                        self@,
                        pids@[j],
                        self@.apps[pids@[j]],
                        #[trigger] r@[j],
                    ),
            decreases pids@.len() - i,
        {
            let pid = pids[i];
            assert(pids@.to_set().contains(pid));
            if let Some(app) = self.app_manager.apps.get(&pid) {
                let is_frontmost =
                    match self.main_window_tracker_manager.main_window_tracker.main_window {
                    Some(wid) => wid.pid == pid,
                    None => false,
                };
                let name = match &app.info.localized_name {
                    Some(name) => name.clone(),
                    None => "Unknown".to_string(),
                };
                r.push(
                    ApplicationData {
                        pid,
                        bundle_id: copied(&app.info.bundle_id),
                        name,
                        is_frontmost,
                        window_count: self.count_windows(pid),
                    },
                );
            }
            i += 1;
        }
        assert(crate::common::sequences::enumerates(pids@, self@.apps.dom()));
        r
    }

    /// Tells of the layout of a space.
    pub fn handle_layout_state_query(&self, space_id: u64) -> (r: Option<LayoutStateData>)
        ensures
            answers_layout(self@, space_id, r),
    {
        let display = self.display_for_space(SpaceId { id: space_id });
        assert(crate::actor::reactor::state::showing(
            self@.screens,
            SpaceId { id: space_id },
            display,
        ));
        if space_id == 0 {
            return None;
        }
        let d = match display {
            Some(d) => d,
            None => {
                return None;
            },
        };
        let engine = &self.layout_manager.layout_engine;
        if engine.active_workspace(d).is_none() {
            return None;
        }
        let wids = engine.windows_in_active_workspace(d);
        let ghost floats = |w: WindowId| engine@.floating.contains(w);
        let ghost tiles = |w: WindowId| !engine@.floating.contains(w);
        let mut floating_windows: Vec<WindowId> = Vec::new();
        let mut tiled_windows: Vec<WindowId> = Vec::new();
        let mut i: usize = 0;
        reveal(Seq::filter);
        while i < wids.len()
            invariant
                i <= wids@.len(),
                floats == |w: WindowId| engine@.floating.contains(w),
                tiles == |w: WindowId| !engine@.floating.contains(w),
                floating_windows@ == wids@.take(i as int).filter(floats),
                tiled_windows@ == wids@.take(i as int).filter(tiles),
            decreases wids@.len() - i,
        {
            proof {
                crate::common::sequences::lemma_filter_step(wids@, i as int, floats);
                crate::common::sequences::lemma_filter_step(wids@, i as int, tiles);
            }
            if engine.is_window_floating(wids[i]) {
                floating_windows.push(wids[i]);
            } else {
                tiled_windows.push(wids[i]);
            }
            i += 1;
        }
        assert(wids@.take(wids@.len() as int) =~= wids@);
        let state = LayoutStateData {
            space_id,
            mode: "tiling".to_string(),
            floating_windows,
            tiled_windows,
            focused_window: self.main_window_tracker_manager.main_window_tracker.main_window,
        };
        assert(tells_layout(self@, space_id, d, state)) by {
            assert(crate::common::sequences::enumerates(wids@, self@.engine.shown_on(d)));
        }
        Some(state)
    }

    /// Tells the figures about what is managed.
    pub fn handle_metrics_query(&self) -> (r: MetricsData)
        ensures
            answers_metrics(self@, r),
    {
        let stats = self.layout_manager.layout_engine.virtual_workspace_manager().get_stats();
        MetricsData {
            windows_managed: self.window_manager.windows.len(),
            workspaces: stats.total_workspaces,
            applications: self.app_manager.apps.len(),
            screens: self.space_manager.screens.len(),
            workspace_stats: tell_counts(
                &stats.workspace_window_counts,
                Ghost(self@.engine.workspaces),
            ),
        }
    }
}

/// The number of windows of each workspace, under the text of its id.
pub(crate) fn tell_counts(
    counts: &VecMap<VirtualWorkspaceId, usize>,
    Ghost(model): Ghost<ManagerModel>,
) -> (r: Vec<(String, usize)>)
    requires
        counts@.dom() == model.workspaces.dom(),
        forall|id: VirtualWorkspaceId| #[trigger]
            model.workspaces.contains_key(id) ==> counts@[id] == model.workspaces[id].windows.len(),
    ensures
        tells_counts(model, r@),
{
    let ids = counts.keys();
    let mut r: Vec<(String, usize)> = Vec::new();
    let mut i: usize = 0;
    assert(ids@.to_set() =~= model.workspaces.dom());
    while i < ids.len()
        invariant
            i <= ids@.len(),
            r@.len() == i,
            ids@.to_set() == model.workspaces.dom(),
            counts@.dom() == model.workspaces.dom(),
            forall|id: VirtualWorkspaceId| #[trigger]
                model.workspaces.contains_key(id) ==> counts@[id]
                    == model.workspaces[id].windows.len(),
            forall|j: int|
                0 <= j < i ==> {
                    &&& (#[trigger] r@[j]).0@ == crate::model::ids::key_debug_text(
                        ids@[j].number(),
                    )
                    &&& r@[j].1 == model.workspaces[ids@[j]].windows.len()
                },
        decreases ids@.len() - i,
    {
        let id = ids[i];
        assert(ids@.to_set().contains(id));
        assert(model.workspaces.contains_key(id));
        if let Some(count) = counts.get(&id) {
            r.push((id.to_debug_string(), *count));
        }
        i += 1;
    }
    assert(crate::common::sequences::enumerates(ids@, model.workspaces.dom()));
    r
}

} // verus!

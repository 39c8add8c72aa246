//! A snapshot of the workspaces and of what the reactor manages, to be written out.
use vstd::prelude::*;
use crate::actor::reactor::managers::Screen;
use crate::actor::reactor::query::tell_counts;
use crate::actor::reactor::state::{Reactor, ReactorModel};
use crate::common::collections::VecMap;
use crate::common::text::{digits_in, parse_digits};
use crate::layout_engine::EngineModel;
use crate::model::geometry::Frame;
use crate::model::ids::{DisplayId, VirtualWorkspaceId, WindowId};
use crate::model::manager_model::ManagerModel;
use crate::model::server::WindowData;

verus! {

/// A window in a snapshot: its id, and what is told of it where something is known.
#[derive(Debug)]
pub struct WindowSnapshot {
    pub id: WindowId,
    pub data: Option<WindowData>,
}

/// A workspace in a snapshot.
#[derive(Debug)]
pub struct WorkspaceSnapshot {
    pub id: String,
    /// The digits of the id as a number, or zero when they are too many.
    pub id_num: u64,
    pub name: String,
    pub is_active: bool,
    pub windows: Vec<WindowSnapshot>,
    pub last_focused: Option<WindowId>,
    pub floating_positions: Vec<(WindowId, Frame)>,
}

/// A space in a snapshot, with the workspaces of the display that shows it.
#[derive(Debug)]
pub struct SpaceSnapshot {
    pub space: u64,
    pub workspaces: Vec<WorkspaceSnapshot>,
}

/// The workspace of a window in a snapshot.
#[derive(Debug)]
pub struct AssignmentSnapshot {
    pub space: u64,
    pub window: WindowSnapshot,
    pub workspace: String,
}

/// A snapshot.
#[derive(Debug)]
pub struct StateSnapshot {
    pub total_workspaces: usize,
    pub total_windows: usize,
    pub active_spaces: usize,
    pub workspace_window_counts: Vec<(String, usize)>,
    pub spaces: Vec<SpaceSnapshot>,
    pub window_to_workspace: Vec<AssignmentSnapshot>,
    pub apps: usize,
    pub managed_windows: usize,
    pub window_server_info: usize,
    pub visible_window_server_ids: usize,
    pub screens: usize,
    /// The managed windows that stand nowhere else in the snapshot.
    pub known_managed_windows: Vec<WindowSnapshot>,
}

/// A window with what is told of it.
pub open spec fn window_snapshot(data: Map<WindowId, WindowData>, w: WindowId) -> WindowSnapshot {
    WindowSnapshot { id: w, data: data.get(w) }
}

/// Each window of the set stands once; the order is left open.
pub open spec fn holds_windows(
    held: Seq<WindowSnapshot>,
    windows: Set<WindowId>,
    data: Map<WindowId, WindowData>,
) -> bool {
    exists|wids: Seq<WindowId>| #[trigger]
        crate::common::sequences::enumerates(wids, windows) && held == wids.map_values(
            |w: WindowId| window_snapshot(data, w),
        )
}

/// The digits of a text as a number, or zero when they form none.
pub open spec fn digits_number(text: Seq<char>) -> u64 {
    match crate::common::text::parsed(crate::common::text::digits_of(text)) {
        Some(n) => n,
        None => 0,
    }
}

/// What a snapshot holds of a workspace.
pub open spec fn holds_workspace(
    model: ManagerModel,
    display: DisplayId,
    entry: (VirtualWorkspaceId, Seq<char>),
    data: Map<WindowId, WindowData>,
    held: WorkspaceSnapshot,
) -> bool {
    let id = entry.0;
    &&& held.id@ == crate::model::ids::key_display_text(id.number())
    &&& held.id_num == digits_number(held.id@)
    &&& held.name@ == entry.1
    &&& held.is_active == (model.active_on(display) == Some(id))
    &&& held.last_focused == if model.owns(display, id) {
        model.workspaces[id].last_focused
    } else {
        None
    }
    &&& holds_windows(
        held.windows@,
        if model.owns(display, id) {
            model.workspaces[id].windows
        } else {
            Set::empty()
        },
        data,
    )
    &&& crate::common::collections::keys_distinct(held.floating_positions@)
    &&& crate::common::collections::entries_map(held.floating_positions@) == model.positions_in(
        display,
        id,
    )
}

/// What a snapshot holds of the workspaces of a display.
pub open spec fn holds_listing(
    model: ManagerModel,
    display: DisplayId,
    data: Map<WindowId, WindowData>,
    held: Seq<WorkspaceSnapshot>,
) -> bool {
    let listing = model.listing(display);
    &&& held.len() == listing.len()
    &&& forall|i: int|
        0 <= i < held.len() ==> holds_workspace(
            model,
            display,
            listing[i],
            data,
            #[trigger] held[i],
        )
}

/// A display whose screen shows a space is put in use and its workspaces are held under the
/// space. The states before and after that and the positions of what is held of a display stand
/// in lists, by display.
pub open spec fn holds_at(
    states: Seq<ManagerModel>,
    bounds: Seq<int>,
    screens: Seq<Screen>,
    data: Map<WindowId, WindowData>,
    held: Seq<SpaceSnapshot>,
    d: DisplayId,
) -> bool {
    let at = bounds[d as int];
    match screens[d as int].space {
        Some(space) => {
            &&& bounds[d + 1] == at + 1
            &&& 0 <= at < held.len()
            &&& states[d as int].initializes(states[d + 1], d)
            &&& held[at].space == space.id
            &&& holds_listing(states[d + 1], d, data, held[at].workspaces@)
        },
        None => bounds[d + 1] == at && states[d + 1] == states[d as int],
    }
}

/// The spaces that are shown are held, in the order of the screens.
pub open spec fn holds_spaces(
    states: Seq<ManagerModel>,
    bounds: Seq<int>,
    screens: Seq<Screen>,
    n: nat,
    data: Map<WindowId, WindowData>,
    held: Seq<SpaceSnapshot>,
) -> bool {
    &&& states.len() == n + 1
    &&& bounds.len() == n + 1
    &&& bounds[0] == 0
    &&& bounds[n as int] == held.len()
    &&& forall|d: DisplayId|
        d < n ==> #[trigger] holds_at(states, bounds, screens, data, held, d)
}

/// All spaces that are shown are held, in the order of the screens.
pub open spec fn holds_all_spaces(
    before: ReactorModel,
    after: ReactorModel,
    data: Map<WindowId, WindowData>,
    held: Seq<SpaceSnapshot>,
) -> bool {
    exists|states: Seq<ManagerModel>, bounds: Seq<int>|
        {
            &&& #[trigger] holds_spaces(
                states,
                bounds,
                before.screens,
                before.screens.len(),
                data,
                held,
            )
            &&& states[0] == before.engine.workspaces
            &&& states.last() == after.engine.workspaces
        }
}

/// The display is that of a screen that shows a space.
pub open spec fn shows_a_space(screens: Seq<Screen>, d: DisplayId) -> bool {
    d < screens.len() && screens[d as int].space is Some
}

/// The assignments on displays that show a space.
pub open spec fn shown_assignments(model: ManagerModel, screens: Seq<Screen>) -> Set<
    (DisplayId, WindowId),
> {
    model.assigned.dom().filter(|k: (DisplayId, WindowId)| shows_a_space(screens, k.0))
}

/// Each assignment on a display that shows a space is held once; the order is left open.
pub open spec fn holds_assignments(
    model: ManagerModel,
    screens: Seq<Screen>,
    data: Map<WindowId, WindowData>,
    held: Seq<AssignmentSnapshot>,
) -> bool {
    exists|keys: Seq<(DisplayId, WindowId)>|
        {
            &&& #[trigger] crate::common::sequences::enumerates(
                keys,
                shown_assignments(model, screens),
            )
            &&& held.len() == keys.len()
            &&& forall|i: int|
                0 <= i < held.len() ==> holds_assignment(
                    model,
                    screens,
                    data,
                    keys[i],
                    #[trigger] held[i],
                )
        }
}

/// What a snapshot holds of an assignment.
pub open spec fn holds_assignment(
    model: ManagerModel,
    screens: Seq<Screen>,
    data: Map<WindowId, WindowData>,
    key: (DisplayId, WindowId),
    held: AssignmentSnapshot,
) -> bool {
    &&& held.space == screens[key.0 as int].space->0.id
    &&& held.window == window_snapshot(data, key.1)
    &&& held.workspace@ == crate::model::ids::key_display_text(model.assigned[key].number())
}

/// The window stands in a workspace of the snapshot.
pub open spec fn stands_in_workspace(held: WorkspaceSnapshot, w: WindowId) -> bool {
    exists|i: int| 0 <= i < held.windows@.len() && (#[trigger] held.windows@[i]).id == w
}

pub open spec fn stands_in_space(held: SpaceSnapshot, w: WindowId) -> bool {
    exists|i: int|
        0 <= i < held.workspaces@.len() && stands_in_workspace(#[trigger] held.workspaces@[i], w)
}

pub open spec fn stands_in_spaces(held: Seq<SpaceSnapshot>, w: WindowId) -> bool {
    exists|i: int| 0 <= i < held.len() && stands_in_space(#[trigger] held[i], w)
}

pub open spec fn stands_in_assignments(held: Seq<AssignmentSnapshot>, w: WindowId) -> bool {
    exists|i: int| 0 <= i < held.len() && (#[trigger] held[i]).window.id == w
}

/// The managed windows that stand neither in a workspace nor in an assignment.
pub open spec fn left_over(
    windows: Set<WindowId>,
    spaces: Seq<SpaceSnapshot>,
    assignments: Seq<AssignmentSnapshot>,
) -> Set<WindowId> {
    windows.filter(
        |w: WindowId| !stands_in_spaces(spaces, w) && !stands_in_assignments(assignments, w),
    )
}

/// What a snapshot holds. The figures about the workspaces are those from before displays were
/// put in use.
pub open spec fn is_snapshot(
    before: ReactorModel,
    after: ReactorModel,
    data: Map<WindowId, WindowData>,
    held: StateSnapshot,
) -> bool {
    let workspaces = before.engine.workspaces;
    &&& after == (ReactorModel {
        engine: EngineModel { workspaces: after.engine.workspaces, ..before.engine },
        ..before
    })
    &&& held.total_workspaces == workspaces.workspaces.len()
    &&& held.total_windows == workspaces.assigned.len()
    &&& held.active_spaces == workspaces.active.len()
    &&& crate::actor::reactor::query::tells_counts(workspaces, held.workspace_window_counts@)
    &&& holds_all_spaces(before, after, data, held.spaces@)
    &&& holds_assignments(
        after.engine.workspaces,
        before.screens,
        data,
        held.window_to_workspace@,
    )
    &&& holds_windows(
        held.known_managed_windows@,
        left_over(before.windows.dom(), held.spaces@, held.window_to_workspace@),
        data,
    )
    &&& held.apps == before.apps.len()
    &&& held.managed_windows == before.windows.len()
    &&& held.window_server_info == before.server_info.len()
    &&& held.visible_window_server_ids == before.visible_windows.len()
    &&& held.screens == before.screens.len()
}

fn snapshot_window(data: &VecMap<WindowId, WindowData>, wid: WindowId) -> (r: WindowSnapshot)
    ensures
        r == window_snapshot(data@, wid),
{
    WindowSnapshot {
        id: wid,
        data: match data.get(&wid) {
            Some(window) => Some(window.clone()),
            None => None,
        },
    }
}

fn snapshot_windows(data: &VecMap<WindowId, WindowData>, wids: &Vec<WindowId>) -> (r: Vec<
    WindowSnapshot,
>)
    ensures
        r@ == wids@.map_values(|w: WindowId| window_snapshot(data@, w)),
{
    let mut r: Vec<WindowSnapshot> = Vec::new();
    let mut i: usize = 0;
    while i < wids.len()
        invariant
            i <= wids@.len(),
            r@ == wids@.take(i as int).map_values(|w: WindowId| window_snapshot(data@, w)),
        decreases wids@.len() - i,
    {
        r.push(snapshot_window(data, wids[i]));
        i += 1;
        assert(r@ =~= wids@.take(i as int).map_values(|w: WindowId| window_snapshot(data@, w)));
    }
    assert(wids@.take(wids@.len() as int) =~= wids@);
    r
}

fn is_in_workspace(held: &WorkspaceSnapshot, wid: WindowId) -> (r: bool)
    ensures
        r == stands_in_workspace(*held, wid),
{
    let mut i: usize = 0;
    while i < held.windows.len()
        invariant
            i <= held.windows@.len(),
            forall|j: int| 0 <= j < i ==> (#[trigger] held.windows@[j]).id != wid,
        decreases held.windows@.len() - i,
    {
        if held.windows[i].id == wid {
            return true;
        }
        i += 1;
    }
    false
}

fn is_in_space(held: &SpaceSnapshot, wid: WindowId) -> (r: bool)
    ensures
        r == stands_in_space(*held, wid),
{
    let mut i: usize = 0;
    while i < held.workspaces.len()
        invariant
            i <= held.workspaces@.len(),
            forall|j: int|
                0 <= j < i ==> !stands_in_workspace(#[trigger] held.workspaces@[j], wid),
        decreases held.workspaces@.len() - i,
    {
        if is_in_workspace(&held.workspaces[i], wid) {
            return true;
        }
        i += 1;
    }
    false
}

fn is_in_spaces(held: &Vec<SpaceSnapshot>, wid: WindowId) -> (r: bool)
    ensures
        r == stands_in_spaces(held@, wid),
{
    let mut i: usize = 0;
    while i < held.len()
        invariant
            i <= held@.len(),
            forall|j: int| 0 <= j < i ==> !stands_in_space(#[trigger] held@[j], wid),
        decreases held@.len() - i,
    {
        if is_in_space(&held[i], wid) {
            return true;
        }
        i += 1;
    }
    false
}

fn is_in_assignments(held: &Vec<AssignmentSnapshot>, wid: WindowId) -> (r: bool)
    ensures
        r == stands_in_assignments(held@, wid),
{
    let mut i: usize = 0;
    while i < held.len()
        invariant
            i <= held@.len(),
            forall|j: int| 0 <= j < i ==> (#[trigger] held@[j]).window.id != wid,
        decreases held@.len() - i,
    {
        if held[i].window.id == wid {
            return true;
        }
        i += 1;
    }
    false
}

impl Reactor {
    /// A snapshot of a workspace of a display.
    fn snapshot_workspace(
        &self,
        display: DisplayId,
        id: VirtualWorkspaceId,
        name: String,
        data: &VecMap<WindowId, WindowData>,
    ) -> (r: WorkspaceSnapshot)
        ensures
            holds_workspace(self@.engine.workspaces, display, (id, name@), data@, r),
    {
        let manager = self.layout_manager.layout_engine.virtual_workspace_manager();
        let wids = match manager.workspace_info(display, id) {
            Some(workspace) => workspace.windows(),
            None => Vec::new(),
        };
        assert(wids@.len() == 0 ==> wids@.to_set() =~= Set::<WindowId>::empty());
        let ghost own = if manager@.owns(display, id) {
            manager@.workspaces[id].windows
        } else {
            Set::empty()
        };
        assert(crate::common::sequences::enumerates(wids@, own));
        let text = id.to_string();
        let digits = digits_in(text.as_str());
        proof {
            crate::common::text::digits_are_digits(text@);
        }
        let id_num = match parse_digits(&digits) {
            Some(n) => n,
            None => 0,
        };
        WorkspaceSnapshot {
            id: text,
            id_num,
            name,
            is_active: manager.active_workspace(display) == Some(id),
            windows: snapshot_windows(data, &wids),
            last_focused: manager.last_focused_window(display, id),
            floating_positions: manager.get_workspace_floating_positions(display, id),
        }
    }

    /// A snapshot of the workspaces of a display, in order.
    fn snapshot_listing(
        &self,
        display: DisplayId,
        listed: &Vec<(VirtualWorkspaceId, String)>,
        data: &VecMap<WindowId, WindowData>,
    ) -> (r: Vec<WorkspaceSnapshot>)
        requires
            listed@.map_values(|e: (VirtualWorkspaceId, String)| (e.0, e.1@))
                == self@.engine.workspaces.listing(display),
        ensures
            holds_listing(self@.engine.workspaces, display, data@, r@),
    {
        let ghost listing = listed@.map_values(|e: (VirtualWorkspaceId, String)| (e.0, e.1@));
        assert(listing.len() == listed@.len());
        let mut r: Vec<WorkspaceSnapshot> = Vec::new();
        let mut i: usize = 0;
        while i < listed.len()
            invariant
                i <= listed@.len(),
                r@.len() == i,
                listing == listed@.map_values(|e: (VirtualWorkspaceId, String)| (e.0, e.1@)),
                forall|j: int|
                    0 <= j < i ==> holds_workspace(
                        self@.engine.workspaces,
                        display,
                        listing[j],
                        data@,
                        #[trigger] r@[j],
                    ),
            decreases listed@.len() - i,
        {
            assert(listing[i as int] == (listed@[i as int].0, listed@[i as int].1@));
            r.push(self.snapshot_workspace(display, listed[i].0, listed[i].1.clone(), data));
            i += 1;
        }
        r
    }

    /// A snapshot of the spaces that are shown, in the order of the screens.
    fn snapshot_spaces(&mut self, data: &VecMap<WindowId, WindowData>) -> (r: Vec<SpaceSnapshot>)
        requires
            old(self)@.engine.workspaces.fits_below(old(self)@.screens.len()),
        ensures
            final(self)@ == (ReactorModel {
                engine: EngineModel {
                    workspaces: final(self)@.engine.workspaces,
                    ..old(self)@.engine
                },
                ..old(self)@
            }),
            holds_all_spaces(old(self)@, final(self)@, data@, r@),
    {
        let ghost before = self@;
        let ghost start = self@.engine.workspaces;
        let mut r: Vec<SpaceSnapshot> = Vec::new();
        let displays = self.space_manager.screens.len();
        let ghost mut states: Seq<ManagerModel> = seq![start];
        let ghost mut bounds: Seq<int> = seq![0];
        let mut display: usize = 0;
        while display < displays
            invariant
                display <= displays,
                displays == before.screens.len(),
                start == before.engine.workspaces,
                start.fits_below(displays as nat),
                self@ == (ReactorModel {
                    engine: EngineModel { workspaces: self@.engine.workspaces, ..before.engine },
                    ..before
                }),
                self@.engine.workspaces.settings == start.settings,
                self@.engine.workspaces.workspaces.len() <= start.workspaces.len()
                    + start.pending_below(display as nat),
                forall|d: DisplayId|
                    d >= display ==> (#[trigger] self@.engine.workspaces.by_display.contains_key(d)
                        <==> start.by_display.contains_key(d)),
                holds_spaces(states, bounds, before.screens, display as nat, data@, r@),
                states[0] == start,
                states.last() == self@.engine.workspaces,
            decreases displays - display,
        {
            let ghost between = self@.engine.workspaces;
            let ghost held = r@;
            proof {
                crate::model::manager_model::lemma_pending_below(
                    start,
                    (display + 1) as nat,
                    displays as nat,
                );
                assert(between.by_display.contains_key(display) <==> start.by_display.contains_key(
                    display,
                ));
                assert(between.pending(display) == start.pending(display));
            }
            if let Some(space) = self.space_manager.screens[display].space {
                let manager = self.layout_manager.layout_engine.virtual_workspace_manager_mut();
                let listed = manager.list_workspaces(display);
                let workspaces = self.snapshot_listing(display, &listed, data);
                r.push(SpaceSnapshot { space: space.id, workspaces });
            }
            proof {
                let old_states = states;
                let old_bounds = bounds;
                states = states.push(self@.engine.workspaces);
                bounds = bounds.push(r@.len() as int);
                assert forall|d: DisplayId| d < display + 1 implies #[trigger] holds_at(
                    states,
                    bounds,
                    before.screens,
                    data@,
                    r@,
                    d,
                ) by {
                    if d < display {
                        assert(holds_at(old_states, old_bounds, before.screens, data@, held, d));
                    }
                }
            }
            display += 1;
        }
        r
    }

    /// A snapshot of the assignments on displays that show a space.
    fn snapshot_assignments(&self, data: &VecMap<WindowId, WindowData>) -> (r: Vec<
        AssignmentSnapshot,
    >)
        ensures
            holds_assignments(self@.engine.workspaces, self@.screens, data@, r@),
    {
        let manager = self.layout_manager.layout_engine.virtual_workspace_manager();
        let ghost model = manager@;
        let ghost shown = |k: (DisplayId, WindowId)| shows_a_space(self@.screens, k.0);
        let all = manager.assignments();
        let ghost keys = all@.map_values(
            |e: ((DisplayId, WindowId), VirtualWorkspaceId)| e.0,
        );
        let mut r: Vec<AssignmentSnapshot> = Vec::new();
        let mut i: usize = 0;
        reveal(Seq::filter);
        while i < all.len()
            invariant
                i <= all@.len(),
                model == self@.engine.workspaces,
                shown == |k: (DisplayId, WindowId)| shows_a_space(self@.screens, k.0),
                keys == all@.map_values(
                    |e: ((DisplayId, WindowId), VirtualWorkspaceId)| e.0,
                ),
                forall|j: int|
                    0 <= j < all@.len() ==> model.assigned[(#[trigger] all@[j]).0] == all@[j].1,
                r@.len() == keys.take(i as int).filter(shown).len(),
                forall|j: int|
                    0 <= j < r@.len() ==> holds_assignment(
                        model,
                        self@.screens,
                        data@,
                        keys.take(i as int).filter(shown)[j],
                        #[trigger] r@[j],
                    ),
            decreases all@.len() - i,
        {
            let ((display, wid), id) = all[i];
            proof {
                crate::common::sequences::lemma_filter_step(keys, i as int, shown);
                assert(keys[i as int] == (display, wid));
                assert(model.assigned[all@[i as int].0] == id);
            }
            if display < self.space_manager.screens.len() {
                if let Some(space) = self.space_manager.screens[display].space {
                    r.push(
                        AssignmentSnapshot {
                            space: space.id,
                            window: snapshot_window(data, wid),
                            workspace: id.to_string(),
                        },
                    );
                }
            }
            i += 1;
        }
        proof {
            assert(keys.take(keys.len() as int) =~= keys);
            crate::common::sequences::lemma_filter_enumerates(
                keys,
                model.assigned.dom(),
                shown,
                shown_assignments(model, self@.screens),
            );
        }
        r
    }

    /// A snapshot of the managed windows that stand nowhere else.
    fn snapshot_left_over(
        &self,
        spaces: &Vec<SpaceSnapshot>,
        assignments: &Vec<AssignmentSnapshot>,
        data: &VecMap<WindowId, WindowData>,
    ) -> (r: Vec<WindowSnapshot>)
        ensures
            holds_windows(
                r@,
                left_over(self@.windows.dom(), spaces@, assignments@),
                data@,
            ),
    {
        let all = self.window_manager.windows.keys();
        let ghost rest = |w: WindowId|
            !stands_in_spaces(spaces@, w) && !stands_in_assignments(assignments@, w);
        let mut wids: Vec<WindowId> = Vec::new();
        let mut i: usize = 0;
        reveal(Seq::filter);
        while i < all.len()
            invariant
                i <= all@.len(),
                rest == |w: WindowId|
                    !stands_in_spaces(spaces@, w) && !stands_in_assignments(assignments@, w),
                wids@ == all@.take(i as int).filter(rest),
            decreases all@.len() - i,
        {
            proof {
                crate::common::sequences::lemma_filter_step(all@, i as int, rest);
            }
            if !is_in_spaces(spaces, all[i]) && !is_in_assignments(assignments, all[i]) {
                wids.push(all[i]);
            }
            i += 1;
        }
        proof {
            assert(all@.take(all@.len() as int) =~= all@);
            assert(all@.to_set() =~= self@.windows.dom());
            crate::common::sequences::lemma_filter_enumerates(
                all@,
                self@.windows.dom(),
                rest,
                left_over(self@.windows.dom(), spaces@, assignments@),
            );
        }
        snapshot_windows(data, &wids)
    }

    /// Takes a snapshot. The displays that show a space are put in use.
    pub fn serialize_state(&mut self, data: &VecMap<WindowId, WindowData>) -> (r: StateSnapshot)
        requires
            old(self)@.engine.workspaces.fits_below(old(self)@.screens.len()),
        ensures
            is_snapshot(old(self)@, final(self)@, data@, r),
    {
        let stats = self.layout_manager.layout_engine.virtual_workspace_manager().get_stats();
        let workspace_window_counts = tell_counts(
            &stats.workspace_window_counts,
            Ghost(self@.engine.workspaces),
        );
        let spaces = self.snapshot_spaces(data);
        let window_to_workspace = self.snapshot_assignments(data);
        let known_managed_windows = self.snapshot_left_over(&spaces, &window_to_workspace, data);
        StateSnapshot {
            total_workspaces: stats.total_workspaces,
            total_windows: stats.total_windows,
            active_spaces: stats.active_spaces,
            workspace_window_counts,
            spaces,
            window_to_workspace,
            apps: self.app_manager.apps.len(),
            managed_windows: self.window_manager.windows.len(),
            window_server_info: self.window_server_info_manager.window_server_info.len(),
            visible_window_server_ids: self.window_manager.visible_windows.len(),
            screens: self.space_manager.screens.len(),
            known_managed_windows,
        }
    }
}

/// Every managed window stands in a snapshot: in a workspace, in an assignment or among the rest.
pub proof fn every_managed_window_is_in_the_snapshot(
    before: ReactorModel,
    after: ReactorModel,
    data: Map<WindowId, WindowData>,
    held: StateSnapshot,
    w: WindowId,
)
    requires
        is_snapshot(before, after, data, held),
        before.windows.contains_key(w),
    ensures
        stands_in_spaces(held.spaces@, w) || stands_in_assignments(held.window_to_workspace@, w)
            || exists|i: int|
            0 <= i < held.known_managed_windows@.len() && (
            #[trigger] held.known_managed_windows@[i]).id == w,
{
    let rest = left_over(before.windows.dom(), held.spaces@, held.window_to_workspace@);
    if rest.contains(w) {
        let wids = choose|wids: Seq<WindowId>| #[trigger]
            crate::common::sequences::enumerates(wids, rest) && held.known_managed_windows@
                == wids.map_values(|w: WindowId| window_snapshot(data, w));
        assert(wids.to_set().contains(w));
        let i = choose|i: int| 0 <= i < wids.len() && wids[i] == w;
        assert(held.known_managed_windows@[i].id == w);
    }
}

/// The states that a snapshot passes through are consistent.
pub(crate) proof fn lemma_states_consistent(
    states: Seq<ManagerModel>,
    bounds: Seq<int>,
    screens: Seq<Screen>,
    n: nat,
    data: Map<WindowId, WindowData>,
    held: Seq<SpaceSnapshot>,
    m: nat,
)
    requires
        n <= usize::MAX,
        m <= n,
        states[0].wf(),
        holds_spaces(states, bounds, screens, n, data, held),
    ensures
        states[m as int].wf(),
    decreases m,
{
    if m > 0 {
        let last = (m - 1) as DisplayId;
        lemma_states_consistent(states, bounds, screens, n, data, held, (m - 1) as nat);
        assert(holds_at(states, bounds, screens, data, held, last));
        if screens[last as int].space is Some {
            crate::model::laws::initialization_keeps_consistency(
                states[m - 1],
                states[m as int],
                last,
            );
        }
    }
}

/// Taking a snapshot keeps the state consistent.
pub proof fn snapshot_keeps_consistency(
    before: ReactorModel,
    after: ReactorModel,
    data: Map<WindowId, WindowData>,
    held: StateSnapshot,
)
    requires
        before.engine.workspaces.wf(),
        before.screens.len() <= usize::MAX,
        is_snapshot(before, after, data, held),
    ensures
        after.engine.workspaces.wf(),
{
    let n = before.screens.len();
    let (states, bounds) = choose|states: Seq<ManagerModel>, bounds: Seq<int>|
        {
            &&& #[trigger] holds_spaces(states, bounds, before.screens, n, data, held.spaces@)
            &&& states[0] == before.engine.workspaces
            &&& states.last() == after.engine.workspaces
        };
    lemma_states_consistent(states, bounds, before.screens, n, data, held.spaces@, n);
}

} // verus!

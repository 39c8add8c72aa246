//! What holds of the answers.
use vstd::prelude::*;
use crate::actor::reactor::managers::Screen;
use crate::actor::reactor::state::ReactorModel;
use crate::model::geometry::Frame;
use crate::model::ids::{DisplayId, VirtualWorkspaceId, WindowId};
use crate::model::manager_model::ManagerModel;
use crate::model::server::{LayoutStateData, WindowData, WorkspaceData};

verus! {

/// Workspaces are told under consecutive indices, across all displays.
pub proof fn indices_are_consecutive(
    before: ReactorModel,
    after: ReactorModel,
    data: Map<WindowId, WindowData>,
    predictions: Map<VirtualWorkspaceId, Vec<(WindowId, Frame)>>,
    told: Seq<WorkspaceData>,
)
    requires
        before.screens.len() <= usize::MAX,
        crate::actor::reactor::query::answers_workspaces(before, after, data, predictions, told),
    ensures
        forall|i: int| 0 <= i < told.len() ==> (#[trigger] told[i]).index == i,
{
    let (states, bounds) = choose|states: Seq<ManagerModel>, bounds: Seq<int>|
        {
            &&& #[trigger] crate::actor::reactor::query::tells_displays(
                states,
                bounds,
                before.screens,
                before.screens.len(),
                data,
                predictions,
                told,
            )
            &&& states[0] == before.engine.workspaces
            &&& states.last() == after.engine.workspaces
        };
    assert forall|i: int| 0 <= i < told.len() implies (#[trigger] told[i]).index == i by {
        let d = display_of(states, bounds, before.screens, before.screens.len(), data, predictions, told, i);
        assert(crate::actor::reactor::query::tells_at(
            states,
            bounds,
            before.screens,
            data,
            predictions,
            told,
            d,
        ));
        let part = told.subrange(bounds[d as int], bounds[d + 1]);
        assert(part[i - bounds[d as int]] == told[i]);
    }
}

/// The display that what is told at a position belongs to.
pub(crate) proof fn display_of(
    states: Seq<ManagerModel>,
    bounds: Seq<int>,
    screens: Seq<Screen>,
    n: nat,
    data: Map<WindowId, WindowData>,
    predictions: Map<VirtualWorkspaceId, Vec<(WindowId, Frame)>>,
    told: Seq<WorkspaceData>,
    i: int,
) -> (d: DisplayId)
    requires
        n <= usize::MAX,
        bounds.len() >= n + 1,
        bounds[0] == 0,
        0 <= i < bounds[n as int],
        forall|d: DisplayId|
            d < n ==> #[trigger] crate::actor::reactor::query::tells_at(
                states,
                bounds,
                screens,
                data,
                predictions,
                told,
                d,
            ),
    ensures
        d < n,
        bounds[d as int] <= i < bounds[d + 1],
    decreases n,
{
    let last = (n - 1) as DisplayId;
    if bounds[n - 1] <= i {
        last
    } else {
        display_of(states, bounds, screens, (n - 1) as nat, data, predictions, told, i)
    }
}

/// Putting one display in use leaves the listings of the displays in use, what they show, the windows
/// of their workspaces and the stored positions as they are.
pub proof fn initialization_keeps_other_displays(
    before: ManagerModel,
    after: ManagerModel,
    display: DisplayId,
    other: DisplayId,
)
    requires
        before.wf(),
        before.initializes(after, display),
        before.by_display.contains_key(other),
    ensures
        after.by_display.contains_key(other),
        after.by_display[other] == before.by_display[other],
        after.positions == before.positions,
        after.listing(other) == before.listing(other),
        after.active_on(other) == before.active_on(other),
        forall|id: VirtualWorkspaceId| #[trigger]
            before.owns(other, id) ==> after.owns(other, id) && after.workspaces[id]
                == before.workspaces[id],
{
    crate::model::laws::initialization_keeps_consistency(before, after, display);
    crate::model::laws::listing_is_complete(before, other);
    crate::model::laws::listing_is_complete(after, other);
    if !before.by_display.contains_key(display) {
        assert(forall|id: VirtualWorkspaceId| #[trigger]
            before.workspaces.contains_key(id) ==> after.workspaces.contains_key(id));
        let ids = before.ids_on(other);
        assert(after.ids_on(other) == ids);
        assert forall|i: int| 0 <= i < ids.len() implies #[trigger] after.workspaces[ids[i]]
            == before.workspaces[ids[i]] by {
            assert(before.owns(other, before.by_display[other][i]));
        }
        assert(after.listing(other) =~= before.listing(other));
    }
}

/// The displays from zero on.
pub open spec fn first_displays(n: nat) -> Seq<DisplayId> {
    Seq::new(n, |i: int| i as DisplayId)
}

proof fn states_stay_consistent(
    states: Seq<ManagerModel>,
    bounds: Seq<int>,
    screens: Seq<Screen>,
    n: nat,
    data: Map<WindowId, WindowData>,
    predictions: Map<VirtualWorkspaceId, Vec<(WindowId, Frame)>>,
    told: Seq<WorkspaceData>,
    m: nat,
)
    requires
        n <= usize::MAX,
        m <= n,
        states[0].wf(),
        crate::actor::reactor::query::tells_displays(
            states,
            bounds,
            screens,
            n,
            data,
            predictions,
            told,
        ),
    ensures
        states[m as int].wf(),
        forall|d: DisplayId|
            d < m ==> #[trigger] states[m as int].by_display.contains_key(d)
                && states[m as int].listing(d) == states[d + 1].listing(d),
    decreases m,
{
    if m > 0 {
        let last = (m - 1) as DisplayId;
        states_stay_consistent(
            states,
            bounds,
            screens,
            n,
            data,
            predictions,
            told,
            (m - 1) as nat,
        );
        assert(crate::actor::reactor::query::tells_at(
            states,
            bounds,
            screens,
            data,
            predictions,
            told,
            last,
        ));
        let earlier = states[m - 1];
        let later = states[m as int];
        crate::model::laws::initialization_keeps_consistency(earlier, later, last);
        assert forall|d: DisplayId| d < m implies #[trigger] later.by_display.contains_key(d)
            && later.listing(d) == states[d + 1].listing(d) by {
            if d < m - 1 {
                assert(earlier.by_display.contains_key(d));
                initialization_keeps_other_displays(earlier, later, last, d);
            }
        }
    }
}

/// What a display shows and its workspaces stay as they were when the display was told of.
pub(crate) proof fn displays_stay_as_told(
    states: Seq<ManagerModel>,
    bounds: Seq<int>,
    screens: Seq<Screen>,
    n: nat,
    data: Map<WindowId, WindowData>,
    predictions: Map<VirtualWorkspaceId, Vec<(WindowId, Frame)>>,
    told: Seq<WorkspaceData>,
    d: DisplayId,
    m: nat,
)
    requires
        n <= usize::MAX,
        d < m <= n,
        states[0].wf(),
        crate::actor::reactor::query::tells_displays(
            states,
            bounds,
            screens,
            n,
            data,
            predictions,
            told,
        ),
    ensures
        states[d + 1].wf(),
        states[m as int].wf(),
        states[d + 1].by_display.contains_key(d),
        states[m as int].by_display.contains_key(d),
        states[m as int].active_on(d) == states[d + 1].active_on(d),
        forall|id: VirtualWorkspaceId| #[trigger]
            states[d + 1].owns(d, id) ==> states[m as int].owns(d, id)
                && states[m as int].workspaces[id] == states[d + 1].workspaces[id],
    decreases m,
{
    states_stay_consistent(states, bounds, screens, n, data, predictions, told, (d + 1) as nat);
    states_stay_consistent(states, bounds, screens, n, data, predictions, told, m);
    if m > d + 1 {
        let last = (m - 1) as DisplayId;
        displays_stay_as_told(
            states,
            bounds,
            screens,
            n,
            data,
            predictions,
            told,
            d,
            (m - 1) as nat,
        );
        assert(crate::actor::reactor::query::tells_at(
            states,
            bounds,
            screens,
            data,
            predictions,
            told,
            last,
        ));
        initialization_keeps_other_displays(states[m - 1], states[m as int], last, d);
    }
}

/// Asking about the workspaces keeps the state consistent, and what is told under an index is the
/// workspace that is found under it when the workspaces of those displays are counted through.
pub proof fn told_indices_find_their_workspaces(
    before: ReactorModel,
    after: ReactorModel,
    data: Map<WindowId, WindowData>,
    predictions: Map<VirtualWorkspaceId, Vec<(WindowId, Frame)>>,
    told: Seq<WorkspaceData>,
)
    requires
        before.engine.workspaces.wf(),
        before.screens.len() <= usize::MAX,
        crate::actor::reactor::query::answers_workspaces(before, after, data, predictions, told),
    ensures
        after.engine.workspaces.wf(),
        ({
            let all = crate::model::manager_model::global_listing(
                after.engine.workspaces,
                first_displays(before.screens.len()),
            );
            &&& told.len() == all.len()
            &&& forall|i: int|
                0 <= i < told.len() ==> (#[trigger] told[i]).display == all[i].0 && told[i].id@
                    == crate::model::ids::key_debug_text(all[i].1.number())
        }),
{
    let n = before.screens.len();
    let (states, bounds) = choose|states: Seq<ManagerModel>, bounds: Seq<int>|
        {
            &&& #[trigger] crate::actor::reactor::query::tells_displays(
                states,
                bounds,
                before.screens,
                n,
                data,
                predictions,
                told,
            )
            &&& states[0] == before.engine.workspaces
            &&& states.last() == after.engine.workspaces
        };
    states_stay_consistent(states, bounds, before.screens, n, data, predictions, told, n);
    told_is_counted(states, bounds, before.screens, n, data, predictions, told, n);
}

proof fn told_is_counted(
    states: Seq<ManagerModel>,
    bounds: Seq<int>,
    screens: Seq<Screen>,
    n: nat,
    data: Map<WindowId, WindowData>,
    predictions: Map<VirtualWorkspaceId, Vec<(WindowId, Frame)>>,
    told: Seq<WorkspaceData>,
    m: nat,
)
    requires
        n <= usize::MAX,
        m <= n,
        states[0].wf(),
        crate::actor::reactor::query::tells_displays(
            states,
            bounds,
            screens,
            n,
            data,
            predictions,
            told,
        ),
    ensures
        0 <= bounds[m as int] <= told.len(),
        ({
            let all = crate::model::manager_model::global_listing(
                states[n as int],
                first_displays(m),
            );
            &&& bounds[m as int] == all.len()
            &&& forall|i: int|
                0 <= i < all.len() ==> (#[trigger] told[i]).display == all[i].0 && told[i].id@
                    == crate::model::ids::key_debug_text(all[i].1.number())
        }),
    decreases m,
{
    if m > 0 {
        let last = (m - 1) as DisplayId;
        told_is_counted(
            states,
            bounds,
            screens,
            n,
            data,
            predictions,
            told,
            (m - 1) as nat,
        );
        states_stay_consistent(states, bounds, screens, n, data, predictions, told, n);
        assert(crate::actor::reactor::query::tells_at(
            states,
            bounds,
            screens,
            data,
            predictions,
            told,
            last,
        ));
        assert(states[n as int].by_display.contains_key(last));
        let displays = first_displays(m);
        assert(displays.drop_last() =~= first_displays((m - 1) as nat));
        assert(displays.last() == last);
        let listing = states[n as int].listing(last);
        assert(listing == states[last + 1].listing(last));
        let front = crate::model::manager_model::global_listing(
            states[n as int],
            displays.drop_last(),
        );
        let all = crate::model::manager_model::global_listing(states[n as int], displays);
        let here = listing.map_values(|e: (VirtualWorkspaceId, Seq<char>)| (last, e.0));
        assert(all =~= front + here);
        let part = told.subrange(bounds[last as int], bounds[last + 1]);
        assert forall|i: int| 0 <= i < all.len() implies (#[trigger] told[i]).display == all[i].0
            && told[i].id@ == crate::model::ids::key_debug_text(all[i].1.number()) by {
            if i >= front.len() {
                assert(part[i - front.len()] == told[i]);
                assert(all[i] == here[i - front.len()]);
            } else {
                assert(all[i] == front[i]);
            }
        }
    }
}

/// Asking about the workspaces a second time finds every display in use and changes nothing.
pub proof fn asking_again_changes_nothing(
    before: ReactorModel,
    between: ReactorModel,
    after: ReactorModel,
    data: Map<WindowId, WindowData>,
    predictions: Map<VirtualWorkspaceId, Vec<(WindowId, Frame)>>,
    told: Seq<WorkspaceData>,
    told_again: Seq<WorkspaceData>,
)
    requires
        before.engine.workspaces.wf(),
        before.screens.len() <= usize::MAX,
        crate::actor::reactor::query::answers_workspaces(before, between, data, predictions, told),
        crate::actor::reactor::query::answers_workspaces(
            between,
            after,
            data,
            predictions,
            told_again,
        ),
    ensures
        after == between,
{
    let n = before.screens.len();
    let (states, bounds) = choose|states: Seq<ManagerModel>, bounds: Seq<int>|
        {
            &&& #[trigger] crate::actor::reactor::query::tells_displays(
                states,
                bounds,
                before.screens,
                n,
                data,
                predictions,
                told,
            )
            &&& states[0] == before.engine.workspaces
            &&& states.last() == between.engine.workspaces
        };
    states_stay_consistent(states, bounds, before.screens, n, data, predictions, told, n);
    let (more, more_bounds) = choose|states: Seq<ManagerModel>, bounds: Seq<int>|
        {
            &&& #[trigger] crate::actor::reactor::query::tells_displays(
                states,
                bounds,
                between.screens,
                n,
                data,
                predictions,
                told_again,
            )
            &&& states[0] == between.engine.workspaces
            &&& states.last() == after.engine.workspaces
        };
    states_stand_still(
        more,
        more_bounds,
        between.screens,
        n,
        data,
        predictions,
        told_again,
        n,
    );
    assert(after =~= between);
}

proof fn states_stand_still(
    states: Seq<ManagerModel>,
    bounds: Seq<int>,
    screens: Seq<Screen>,
    n: nat,
    data: Map<WindowId, WindowData>,
    predictions: Map<VirtualWorkspaceId, Vec<(WindowId, Frame)>>,
    told: Seq<WorkspaceData>,
    m: nat,
)
    requires
        n <= usize::MAX,
        m <= n,
        forall|d: DisplayId| d < n ==> #[trigger] states[0].by_display.contains_key(d),
        crate::actor::reactor::query::tells_displays(
            states,
            bounds,
            screens,
            n,
            data,
            predictions,
            told,
        ),
    ensures
        states[m as int] == states[0],
    decreases m,
{
    if m > 0 {
        let last = (m - 1) as DisplayId;
        states_stand_still(
            states,
            bounds,
            screens,
            n,
            data,
            predictions,
            told,
            (m - 1) as nat,
        );
        assert(crate::actor::reactor::query::tells_at(
            states,
            bounds,
            screens,
            data,
            predictions,
            told,
            last,
        ));
        assert(states[0].by_display.contains_key(last));
    }
}

/// A display that has workspaces shows exactly one of them: of those that are told of it one is
/// active and no other is.
pub proof fn one_told_workspace_is_active(
    model: ManagerModel,
    display: DisplayId,
    first: int,
    has_space: bool,
    data: Map<WindowId, WindowData>,
    predictions: Map<VirtualWorkspaceId, Vec<(WindowId, Frame)>>,
    told: Seq<WorkspaceData>,
)
    requires
        model.wf(),
        told.len() > 0,
        crate::actor::reactor::query::tells_display(
            model,
            display,
            first,
            has_space,
            data,
            predictions,
            told,
        ),
    ensures
        exists|i: int|
            {
                &&& 0 <= i < told.len()
                &&& (#[trigger] told[i]).is_active
                &&& forall|j: int| 0 <= j < told.len() && (#[trigger] told[j]).is_active ==> j == i
            },
{
    crate::model::laws::listing_is_complete(model, display);
    let ids = model.ids_on(display);
    assert(model.by_display.contains_key(display));
    assert(model.active.contains_key(display));
    let active = model.active[display].1;
    assert(ids.contains(active));
    let i = choose|i: int| 0 <= i < ids.len() && ids[i] == active;
    assert(told[i].is_active);
    assert forall|j: int| 0 <= j < told.len() && (#[trigger] told[j]).is_active implies j == i by {
        assert(model.listing(display)[j].0 == ids[j]);
    }
}

/// Of the layout of a space each window of the workspace that is shown is told once, either as
/// floating or as tiled, and no other window is.
pub proof fn windows_float_or_are_tiled(
    model: ReactorModel,
    space_id: u64,
    display: DisplayId,
    told: LayoutStateData,
)
    requires
        crate::actor::reactor::query::tells_layout(model, space_id, display, told),
    ensures
        told.floating_windows@.no_duplicates(),
        told.tiled_windows@.no_duplicates(),
        forall|w: WindowId|
            #![trigger model.engine.shown_on(display).contains(w)]
            {
                &&& told.floating_windows@.contains(w) <==> model.engine.shown_on(
                    display,
                ).contains(w) && model.engine.floating.contains(w)
                &&& told.tiled_windows@.contains(w) <==> model.engine.shown_on(display).contains(w)
                    && !model.engine.floating.contains(w)
            },
{
    let floats = |w: WindowId| model.engine.floating.contains(w);
    let tiles = |w: WindowId| !model.engine.floating.contains(w);
    let wids = choose|wids: Seq<WindowId>|
        {
            &&& #[trigger] crate::common::sequences::enumerates(
                wids,
                model.engine.shown_on(display),
            )
            &&& told.floating_windows@ == wids.filter(floats)
            &&& told.tiled_windows@ == wids.filter(tiles)
        };
    crate::common::sequences::lemma_filter_keeps_distinct(wids, floats);
    crate::common::sequences::lemma_filter_keeps_distinct(wids, tiles);
    assert forall|w: WindowId|
        #![trigger model.engine.shown_on(display).contains(w)]
        {
            &&& told.floating_windows@.contains(w) <==> model.engine.shown_on(display).contains(w)
                && model.engine.floating.contains(w)
            &&& told.tiled_windows@.contains(w) <==> model.engine.shown_on(display).contains(w)
                && !model.engine.floating.contains(w)
        } by {
        crate::common::sequences::lemma_filter_contains(wids, floats, w);
        crate::common::sequences::lemma_filter_contains(wids, tiles, w);
        assert(wids.to_set().contains(w) <==> wids.contains(w));
    }
}

} // verus!

//! What a snapshot holds, in terms of what the reactor knows.
use vstd::prelude::*;
use crate::actor::reactor::managers::Screen;
use crate::actor::reactor::snapshot::{
    AssignmentSnapshot, SpaceSnapshot, StateSnapshot, WindowSnapshot, WorkspaceSnapshot,
};
use crate::actor::reactor::state::ReactorModel;
use crate::model::geometry::Frame;
use crate::model::ids::{DisplayId, SpaceId, VirtualWorkspaceId, WindowId};
use crate::model::manager_model::ManagerModel;
use crate::model::server::WindowData;

verus! {

/// Each window of the set stands once, and no other does; with it stands what is known of it.
pub open spec fn held_as_known(
    held: Seq<WindowSnapshot>,
    windows: Set<WindowId>,
    data: Map<WindowId, WindowData>,
) -> bool {
    &&& forall|i: int, j: int|
        0 <= i < j < held.len() ==> (#[trigger] held[i]).id != (#[trigger] held[j]).id
    &&& forall|w: WindowId| #[trigger]
        windows.contains(w) ==> exists|i: int| 0 <= i < held.len() && (#[trigger] held[i]).id == w
    &&& forall|i: int|
        0 <= i < held.len() ==> {
            &&& windows.contains((#[trigger] held[i]).id)
            &&& held[i].data is Some <==> data.contains_key(held[i].id)
            &&& held[i].data is Some ==> held[i].data->0 == data[held[i].id]
        }
}

/// The windows of a set stand in a snapshot as they are known.
pub proof fn windows_are_held_as_known(
    held: Seq<WindowSnapshot>,
    windows: Set<WindowId>,
    data: Map<WindowId, WindowData>,
)
    requires
        crate::actor::reactor::snapshot::holds_windows(held, windows, data),
    ensures
        held_as_known(held, windows, data),
{
    let wids = choose|wids: Seq<WindowId>| #[trigger]
        crate::common::sequences::enumerates(wids, windows) && held == wids.map_values(
            |w: WindowId| crate::actor::reactor::snapshot::window_snapshot(data, w),
        );
    assert(forall|i: int| 0 <= i < held.len() ==> (#[trigger] held[i]).id == wids[i]);
    assert forall|w: WindowId| #[trigger] windows.contains(w) implies exists|i: int|
        0 <= i < held.len() && (#[trigger] held[i]).id == w by {
        assert(wids.to_set().contains(w));
        let i = choose|i: int| 0 <= i < wids.len() && wids[i] == w;
        assert(held[i].id == w);
    }
    assert forall|i: int| 0 <= i < held.len() implies windows.contains((#[trigger] held[i]).id) by {
        assert(wids.to_set().contains(wids[i]));
    }
}

/// A workspace stands in a snapshot as it is: under the text of its id and the number in that text,
/// with its name, its windows, the one that had the focus last and the stored positions, and as active
/// when its display shows it.
pub open spec fn held_as_it_is(
    held: WorkspaceSnapshot,
    model: ManagerModel,
    display: DisplayId,
    id: VirtualWorkspaceId,
    data: Map<WindowId, WindowData>,
) -> bool {
    &&& held.id@ == crate::model::ids::key_display_text(id.number())
    &&& crate::common::text::parsed(crate::common::text::digits_of(held.id@)) == Some(held.id_num)
        || (held.id_num == 0 && crate::common::text::parsed(
        crate::common::text::digits_of(held.id@),
    ) is None)
    &&& held.name@ == model.workspaces[id].name
    &&& held.is_active <==> model.active[display].1 == id
    &&& held.last_focused == model.workspaces[id].last_focused
    &&& held_as_known(held.windows@, model.workspaces[id].windows, data)
    &&& forall|i: int, j: int|
        0 <= i < j < held.floating_positions@.len() ==> (#[trigger] held.floating_positions@[i]).0
            != (#[trigger] held.floating_positions@[j]).0
    &&& forall|w: WindowId, place: Frame| #[trigger]
        held.floating_positions@.contains((w, place)) <==> {
            &&& model.positions.contains_key((display, id))
            &&& model.positions[(display, id)].contains_key(w)
            &&& model.positions[(display, id)][w] == place
        }
}

/// What a display shows, its workspaces and the stored positions stay as they were when it was put in
/// the snapshot.
proof fn displays_stay_as_held(
    states: Seq<ManagerModel>,
    bounds: Seq<int>,
    screens: Seq<Screen>,
    n: nat,
    data: Map<WindowId, WindowData>,
    held: Seq<SpaceSnapshot>,
    d: DisplayId,
    m: nat,
)
    requires
        n <= usize::MAX,
        d < m <= n,
        states[0].wf(),
        screens[d as int].space is Some,
        crate::actor::reactor::snapshot::holds_spaces(states, bounds, screens, n, data, held),
    ensures
        states[d + 1].wf(),
        states[m as int].wf(),
        states[d + 1].by_display.contains_key(d),
        states[m as int].by_display.contains_key(d),
        states[m as int].by_display[d] == states[d + 1].by_display[d],
        states[m as int].positions == states[d + 1].positions,
        states[m as int].active_on(d) == states[d + 1].active_on(d),
        forall|id: VirtualWorkspaceId| #[trigger]
            states[d + 1].owns(d, id) ==> states[m as int].owns(d, id)
                && states[m as int].workspaces[id] == states[d + 1].workspaces[id],
    decreases m,
{
    crate::actor::reactor::snapshot::lemma_states_consistent(
        states,
        bounds,
        screens,
        n,
        data,
        held,
        d as nat,
    );
    assert(crate::actor::reactor::snapshot::holds_at(states, bounds, screens, data, held, d));
    crate::model::laws::initialization_keeps_consistency(states[d as int], states[d + 1], d);
    if m > d + 1 {
        let last = (m - 1) as DisplayId;
        displays_stay_as_held(states, bounds, screens, n, data, held, d, (m - 1) as nat);
        assert(crate::actor::reactor::snapshot::holds_at(
            states,
            bounds,
            screens,
            data,
            held,
            last,
        ));
        if screens[last as int].space is Some {
            crate::model::laws::initialization_keeps_consistency(
                states[m - 1],
                states[m as int],
                last,
            );
            crate::actor::reactor::query_laws::initialization_keeps_other_displays(
                states[m - 1],
                states[m as int],
                last,
                d,
            );
        }
    }
}

/// The displays among the first that show a space stand at the positions that the bounds give.
proof fn spaces_go_by_display(
    states: Seq<ManagerModel>,
    bounds: Seq<int>,
    screens: Seq<Screen>,
    n: nat,
    data: Map<WindowId, WindowData>,
    held: Seq<SpaceSnapshot>,
    m: nat,
) -> (at: Seq<DisplayId>)
    requires
        n <= usize::MAX,
        m <= n,
        crate::actor::reactor::snapshot::holds_spaces(states, bounds, screens, n, data, held),
    ensures
        at.len() == bounds[m as int],
        forall|i: int, j: int| 0 <= i < j < at.len() ==> (#[trigger] at[i]) < (#[trigger] at[j]),
        forall|i: int|
            0 <= i < at.len() ==> {
                &&& #[trigger] at[i] < m
                &&& screens[at[i] as int].space is Some
                &&& bounds[at[i] as int] == i
            },
        forall|d: DisplayId|
            d < m && (#[trigger] screens[d as int]).space is Some ==> at.contains(d),
    decreases m,
{
    if m == 0 {
        Seq::empty()
    } else {
        let last = (m - 1) as DisplayId;
        let front = spaces_go_by_display(
            states,
            bounds,
            screens,
            n,
            data,
            held,
            (m - 1) as nat,
        );
        assert(crate::actor::reactor::snapshot::holds_at(
            states,
            bounds,
            screens,
            data,
            held,
            last,
        ));
        let at = if screens[last as int].space is Some {
            front.push(last)
        } else {
            front
        };
        assert forall|d: DisplayId|
            d < m && (#[trigger] screens[d as int]).space is Some implies at.contains(d) by {
            if d < m - 1 {
                let i = choose|i: int| 0 <= i < front.len() && front[i] == d;
                assert(at[i] == d);
            } else {
                assert(at[front.len() as int] == d);
            }
        }
        at
    }
}

/// The spaces that are shown are held in the order of the screens, each once for each screen that
/// shows it. Under it stand the workspaces of the display, in order, each as it is once all these
/// displays are in use. The result tells which displays those are.
pub proof fn spaces_are_held_as_they_are(
    before: ReactorModel,
    after: ReactorModel,
    data: Map<WindowId, WindowData>,
    held: Seq<SpaceSnapshot>,
) -> (at: Seq<DisplayId>)
    requires
        before.engine.workspaces.wf(),
        before.screens.len() <= usize::MAX,
        crate::actor::reactor::snapshot::holds_all_spaces(before, after, data, held),
    ensures
        at.len() == held.len(),
        forall|i: int, j: int| 0 <= i < j < at.len() ==> (#[trigger] at[i]) < (#[trigger] at[j]),
        forall|d: DisplayId|
            d < before.screens.len() && (#[trigger] before.screens[d as int]).space is Some
                ==> at.contains(d),
        forall|i: int|
            0 <= i < at.len() ==> {
                let workspaces = after.engine.workspaces;
                &&& #[trigger] at[i] < before.screens.len()
                &&& before.screens[at[i] as int].space == Some(SpaceId { id: held[i].space })
                &&& workspaces.by_display.contains_key(at[i])
                &&& held[i].workspaces@.len() == workspaces.by_display[at[i]].len()
                &&& forall|j: int|
                    0 <= j < held[i].workspaces@.len() ==> held_as_it_is(
                        #[trigger] held[i].workspaces@[j],
                        workspaces,
                        at[i],
                        workspaces.by_display[at[i]][j],
                        data,
                    )
            },
{
    let n = before.screens.len();
    let screens = before.screens;
    let (states, bounds) = choose|states: Seq<ManagerModel>, bounds: Seq<int>|
        {
            &&& #[trigger] crate::actor::reactor::snapshot::holds_spaces(
                states,
                bounds,
                screens,
                n,
                data,
                held,
            )
            &&& states[0] == before.engine.workspaces
            &&& states.last() == after.engine.workspaces
        };
    let at = spaces_go_by_display(states, bounds, screens, n, data, held, n);
    let workspaces = after.engine.workspaces;
    assert forall|i: int| 0 <= i < at.len() implies {
        &&& #[trigger] at[i] < screens.len()
        &&& screens[at[i] as int].space == Some(SpaceId { id: held[i].space })
        &&& workspaces.by_display.contains_key(at[i])
        &&& held[i].workspaces@.len() == workspaces.by_display[at[i]].len()
        &&& forall|j: int|
            0 <= j < held[i].workspaces@.len() ==> held_as_it_is(
                #[trigger] held[i].workspaces@[j],
                workspaces,
                at[i],
                workspaces.by_display[at[i]][j],
                data,
            )
    } by {
        let d = at[i];
        assert(crate::actor::reactor::snapshot::holds_at(states, bounds, screens, data, held, d));
        displays_stay_as_held(states, bounds, screens, n, data, held, d, n);
        let model = states[d + 1];
        crate::model::laws::listing_is_complete(model, d);
        assert forall|j: int| 0 <= j < held[i].workspaces@.len() implies held_as_it_is(
            #[trigger] held[i].workspaces@[j],
            workspaces,
            d,
            workspaces.by_display[d][j],
            data,
        ) by {
            let one = held[i].workspaces@[j];
            let entry = model.listing(d)[j];
            let id = entry.0;
            assert(crate::actor::reactor::snapshot::holds_workspace(model, d, entry, data, one));
            assert(model.ids_on(d)[j] == id);
            assert(model.ids_on(d).contains(id));
            assert(model.owns(d, id));
            assert(model.active.contains_key(d));
            windows_are_held_as_known(one.windows@, model.workspaces[id].windows, data);
            positions_are_listed(one.floating_positions@, model.positions_in(d, id));
        }
    }
    at
}

/// Entries with distinct keys that make up a map are those of the map.
proof fn positions_are_listed(entries: Seq<(WindowId, Frame)>, map: Map<WindowId, Frame>)
    requires
        crate::common::collections::keys_distinct(entries),
        crate::common::collections::entries_map(entries) == map,
    ensures
        forall|w: WindowId, place: Frame| #[trigger]
            entries.contains((w, place)) <==> map.contains_key(w) && map[w] == place,
{
    assert forall|w: WindowId, place: Frame| #[trigger]
        entries.contains((w, place)) <==> map.contains_key(w) && map[w] == place by {
        if entries.contains((w, place)) {
            let i = choose|i: int| 0 <= i < entries.len() && entries[i] == (w, place);
            assert(entries[i].0 == w);
            assert(crate::common::collections::has_key(entries, w));
            let j = choose|j: int| 0 <= j < entries.len() && (#[trigger] entries[j]).0 == w;
            assert(i == j);
        }
        if map.contains_key(w) && map[w] == place {
            assert(crate::common::collections::has_key(entries, w));
            let j = choose|j: int| 0 <= j < entries.len() && (#[trigger] entries[j]).0 == w;
            assert(entries[j] == (w, place));
        }
    }
}

/// Each assignment of a window on a display that shows a space stands once, and no other does: under
/// the space of that display's screen, with what is known of the window and the text of the id of the
/// window's workspace. The result tells which assignments those are.
pub proof fn assignments_are_held_as_they_are(
    model: ManagerModel,
    screens: Seq<Screen>,
    data: Map<WindowId, WindowData>,
    held: Seq<AssignmentSnapshot>,
) -> (keys: Seq<(DisplayId, WindowId)>)
    requires
        crate::actor::reactor::snapshot::holds_assignments(model, screens, data, held),
    ensures
        keys.no_duplicates(),
        held.len() == keys.len(),
        forall|d: DisplayId, w: WindowId| #[trigger]
            keys.contains((d, w)) <==> model.assigned.contains_key((d, w)) && d < screens.len()
                && screens[d as int].space is Some,
        forall|i: int|
            0 <= i < held.len() ==> {
                let (d, w) = keys[i];
                &&& screens[d as int].space == Some(SpaceId { id: (#[trigger] held[i]).space })
                &&& held[i].window.id == w
                &&& held[i].window.data is Some <==> data.contains_key(w)
                &&& held[i].window.data is Some ==> held[i].window.data->0 == data[w]
                &&& held[i].workspace@ == crate::model::ids::key_display_text(
                    model.assigned[(d, w)].number(),
                )
            },
{
    let keys = choose|keys: Seq<(DisplayId, WindowId)>|
        {
            &&& #[trigger] crate::common::sequences::enumerates(
                keys,
                crate::actor::reactor::snapshot::shown_assignments(model, screens),
            )
            &&& held.len() == keys.len()
            &&& forall|i: int|
                0 <= i < held.len() ==> crate::actor::reactor::snapshot::holds_assignment(
                    model,
                    screens,
                    data,
                    keys[i],
                    #[trigger] held[i],
                )
        };
    assert forall|d: DisplayId, w: WindowId| #[trigger]
        keys.contains((d, w)) <==> model.assigned.contains_key((d, w)) && d < screens.len()
            && screens[d as int].space is Some by {
        assert(keys.to_set().contains((d, w)) <==> keys.contains((d, w)));
    }
    assert forall|i: int| 0 <= i < held.len() implies screens[keys[i].0 as int].space == Some(
        SpaceId { id: (#[trigger] held[i]).space },
    ) by {
        assert(keys.contains((keys[i].0, keys[i].1)));
    }
    keys
}

/// The figures of a snapshot count what there was, and the managed windows that stand in no workspace
/// and no assignment of the snapshot stand in it by themselves, with what is known of them. Nothing
/// but the workspaces has changed.
pub proof fn snapshot_is_complete(
    before: ReactorModel,
    after: ReactorModel,
    data: Map<WindowId, WindowData>,
    held: StateSnapshot,
)
    requires
        crate::actor::reactor::snapshot::is_snapshot(before, after, data, held),
    ensures
        after.engine.offscreen == before.engine.offscreen,
        after.engine.floating == before.engine.floating,
        after.engine.positioned == before.engine.positioned,
        after == (ReactorModel { engine: after.engine, ..before }),
        held.total_workspaces == before.engine.workspaces.workspaces.dom().len(),
        held.total_windows == before.engine.workspaces.assigned.dom().len(),
        held.active_spaces == before.engine.workspaces.active.dom().len(),
        crate::actor::reactor::answer_laws::windows_are_counted(
            before.engine.workspaces,
            held.workspace_window_counts@,
        ),
        held.apps == before.apps.dom().len(),
        held.managed_windows == before.windows.dom().len(),
        held.window_server_info == before.server_info.dom().len(),
        held.visible_window_server_ids == before.visible_windows.len(),
        held.screens == before.screens.len(),
        crate::actor::reactor::snapshot::holds_all_spaces(before, after, data, held.spaces@),
        crate::actor::reactor::snapshot::holds_assignments(
            after.engine.workspaces,
            before.screens,
            data,
            held.window_to_workspace@,
        ),
        held_as_known(
            held.known_managed_windows@,
            Set::new(
                |w: WindowId|
                    {
                        &&& before.windows.contains_key(w)
                        &&& forall|i: int, j: int, k: int|
                            #![trigger held.spaces@[i].workspaces@[j].windows@[k]]
                            0 <= i < held.spaces@.len() && 0 <= j
                                < held.spaces@[i].workspaces@.len() && 0 <= k
                                < held.spaces@[i].workspaces@[j].windows@.len()
                                ==> held.spaces@[i].workspaces@[j].windows@[k].id != w
                        &&& forall|i: int|
                            0 <= i < held.window_to_workspace@.len() ==> (
                            #[trigger] held.window_to_workspace@[i]).window.id != w
                    },
            ),
            data,
        ),
{
    let spaces = held.spaces@;
    let assignments = held.window_to_workspace@;
    let rest = crate::actor::reactor::snapshot::left_over(
        before.windows.dom(),
        spaces,
        assignments,
    );
    windows_are_held_as_known(held.known_managed_windows@, rest, data);
    crate::actor::reactor::answer_laws::counts_go_by_workspace(
        before.engine.workspaces,
        held.workspace_window_counts@,
    );
    let alone = Set::new(
        |w: WindowId|
            {
                &&& before.windows.contains_key(w)
                &&& forall|i: int, j: int, k: int|
                    #![trigger held.spaces@[i].workspaces@[j].windows@[k]]
                    0 <= i < held.spaces@.len() && 0 <= j < held.spaces@[i].workspaces@.len() && 0
                        <= k < held.spaces@[i].workspaces@[j].windows@.len()
                        ==> held.spaces@[i].workspaces@[j].windows@[k].id != w
                &&& forall|i: int|
                    0 <= i < held.window_to_workspace@.len() ==> (
                    #[trigger] held.window_to_workspace@[i]).window.id != w
            },
    );
    assert forall|w: WindowId| rest.contains(w) <==> alone.contains(w) by {
        if crate::actor::reactor::snapshot::stands_in_spaces(spaces, w) {
            let i = choose|i: int|
                0 <= i < spaces.len() && crate::actor::reactor::snapshot::stands_in_space(
                    #[trigger] spaces[i],
                    w,
                );
            let j = choose|j: int|
                0 <= j < spaces[i].workspaces@.len()
                    && crate::actor::reactor::snapshot::stands_in_workspace(
                    #[trigger] spaces[i].workspaces@[j],
                    w,
                );
            let k = choose|k: int|
                0 <= k < spaces[i].workspaces@[j].windows@.len() && (
                #[trigger] spaces[i].workspaces@[j].windows@[k]).id == w;
            assert(held.spaces@[i].workspaces@[j].windows@[k].id == w);
        } else {
            assert forall|i: int, j: int, k: int|
                #![trigger held.spaces@[i].workspaces@[j].windows@[k]]
                0 <= i < held.spaces@.len() && 0 <= j < held.spaces@[i].workspaces@.len() && 0 <= k
                    < held.spaces@[i].workspaces@[j].windows@.len()
                implies held.spaces@[i].workspaces@[j].windows@[k].id != w by {
                assert(!crate::actor::reactor::snapshot::stands_in_space(spaces[i], w));
                assert(!crate::actor::reactor::snapshot::stands_in_workspace(
                    spaces[i].workspaces@[j],
                    w,
                ));
            }
        }
    }
    assert(rest =~= alone);
}

} // verus!

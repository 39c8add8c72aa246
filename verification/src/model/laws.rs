//! What holds of the manager in every state that its requests lead to, and what one request
//! leaves for the next.
use vstd::prelude::*;
use crate::common::config::{AppWorkspaceRule, WorkspaceSelector};
use crate::model::geometry::Frame;
use crate::model::ids::{DisplayId, SpaceId, VirtualWorkspaceId, WindowId};
use crate::model::manager_model::{Direction, ManagerModel, ManagerSettings};
use crate::model::workspace::{WorkspaceError, WorkspaceModel};

verus! {

impl ManagerModel {
    /// The workspaces of the displays in use are all that exist; each is listed once, under its
    /// own display, within the limit.
    pub open spec fn displays_in_order(self) -> bool {
        &&& forall|d: DisplayId| #[trigger]
            self.by_display.contains_key(d) ==> {
                &&& self.by_display[d].no_duplicates()
                &&& self.by_display[d].len() <= crate::model::manager_model::greatest(
                    self.settings.max_workspaces as int,
                    1,
                )
                &&& self.settings.max_workspaces >= 1 ==> self.by_display[d].len() >= 1
            }
        &&& forall|d: DisplayId, i: int|
            #![trigger self.by_display[d][i]]
            self.by_display.contains_key(d) && 0 <= i < self.by_display[d].len() ==> self.owns(
                d,
                self.by_display[d][i],
            )
        &&& forall|id: VirtualWorkspaceId| #[trigger]
            self.workspaces.contains_key(id) ==> self.ids_on(
                self.workspaces[id].display,
            ).contains(id)
    }

    /// A display shows, and showed before, workspaces of its own, and one that has workspaces
    /// shows one.
    pub open spec fn active_in_order(self) -> bool {
        &&& forall|d: DisplayId| #[trigger]
            self.active.contains_key(d) ==> {
                &&& self.by_display.contains_key(d)
                &&& self.owns(d, self.active[d].1)
                &&& (self.active[d].0 matches Some(previous) ==> self.owns(d, previous))
            }
        &&& forall|d: DisplayId| #[trigger]
            self.by_display.contains_key(d) && self.by_display[d].len() > 0
                ==> self.active.contains_key(d)
    }

    /// A window is in the workspace that it is assigned to and in no other.
    pub open spec fn windows_in_order(self) -> bool {
        &&& forall|d: DisplayId, w: WindowId| #[trigger]
            self.assigned.contains_key((d, w)) ==> {
                &&& self.owns(d, self.assigned[(d, w)])
                &&& self.workspaces[self.assigned[(d, w)]].windows.contains(w)
            }
        &&& forall|id: VirtualWorkspaceId, w: WindowId|
            #![trigger self.workspaces[id].windows.contains(w)]
            self.workspaces.contains_key(id) && self.workspaces[id].windows.contains(w) ==> {
                &&& self.assigned.contains_key((self.workspaces[id].display, w))
                &&& self.assigned[(self.workspaces[id].display, w)] == id
            }
        &&& forall|d1: DisplayId, d2: DisplayId, w: WindowId|
            #![trigger self.assigned.contains_key((d1, w)), self.assigned.contains_key((d2, w))]
            self.assigned.contains_key((d1, w)) && self.assigned.contains_key((d2, w)) ==> d1 == d2
        &&& forall|k: (DisplayId, WindowId)| #[trigger]
            self.rule_floating.contains_key(k) ==> self.assigned.contains_key(k)
    }

    /// A workspace that knows a space knows that of its display, and positions are kept for
    /// workspaces of the display that they are kept under.
    pub open spec fn places_in_order(self) -> bool {
        &&& forall|id: VirtualWorkspaceId| #[trigger]
            self.workspaces.contains_key(id) ==> (self.workspaces[id].space matches Some(s)
                ==> self.display_spaces.get(self.workspaces[id].display) == Some(s))
        &&& forall|d: DisplayId, id: VirtualWorkspaceId| #[trigger]
            self.positions.contains_key((d, id)) ==> self.owns(d, id)
    }

    /// The state is consistent.
    pub open spec fn wf(self) -> bool {
        &&& self.displays_in_order()
        &&& self.active_in_order()
        &&& self.windows_in_order()
        &&& self.places_in_order()
    }
}

/// A new manager is consistent.
pub proof fn new_manager_is_consistent(settings: ManagerSettings)
    ensures
        ManagerModel::empty(settings).wf(),
{
}

/// The number of workspaces that a display starts with is within the limit, and at least one
/// when the limit allows it.
pub proof fn planned_workspaces_are_within_the_limit(settings: ManagerSettings, display: DisplayId)
    ensures
        settings.planned_names(display).len() <= crate::model::manager_model::greatest(
            settings.max_workspaces as int,
            1,
        ),
        settings.max_workspaces >= 1 ==> settings.planned_names(display).len() >= 1,
{
}

/// The workspaces are the same, each on the display that it was on.
spec fn stay_on_displays(before: ManagerModel, after: ManagerModel) -> bool {
    &&& after.workspaces.dom() =~= before.workspaces.dom()
    &&& forall|id: VirtualWorkspaceId| #[trigger]
        before.workspaces.contains_key(id) ==> after.workspaces[id].display
            == before.workspaces[id].display
}

/// A change within workspaces leaves the displays in order.
proof fn displays_stay_in_order(before: ManagerModel, after: ManagerModel)
    requires
        before.displays_in_order(),
        stay_on_displays(before, after),
        after.by_display == before.by_display,
        after.settings == before.settings,
    ensures
        after.displays_in_order(),
{
    assert forall|d: DisplayId, i: int|
        #![trigger after.by_display[d][i]]
        after.by_display.contains_key(d) && 0 <= i < after.by_display[d].len() implies after.owns(
        d,
        after.by_display[d][i],
    ) by {
        assert(before.owns(d, before.by_display[d][i]));
    }
    assert forall|id: VirtualWorkspaceId| #[trigger]
        after.workspaces.contains_key(id) implies after.ids_on(
        after.workspaces[id].display,
    ).contains(id) by {
        assert(before.workspaces.contains_key(id));
    }
}

/// A change within workspaces leaves the positions with workspaces of their displays.
proof fn positions_stay_in_order(before: ManagerModel, after: ManagerModel)
    requires
        before.places_in_order(),
        stay_on_displays(before, after),
        after.positions == before.positions,
    ensures
        forall|d: DisplayId, id: VirtualWorkspaceId| #[trigger]
            after.positions.contains_key((d, id)) ==> after.owns(d, id),
{
    assert forall|d: DisplayId, id: VirtualWorkspaceId| #[trigger]
        after.positions.contains_key((d, id)) implies after.owns(d, id) by {
        assert(before.positions.contains_key((d, id)));
    }
}

/// A change within workspaces that leaves their spaces alone leaves spaces and positions in order.
proof fn places_stay_in_order(before: ManagerModel, after: ManagerModel)
    requires
        before.places_in_order(),
        stay_on_displays(before, after),
        after.positions == before.positions,
        after.display_spaces == before.display_spaces,
        forall|id: VirtualWorkspaceId| #[trigger]
            before.workspaces.contains_key(id) ==> after.workspaces[id].space
                == before.workspaces[id].space,
    ensures
        after.places_in_order(),
{
    positions_stay_in_order(before, after);
    assert forall|id: VirtualWorkspaceId| #[trigger]
        after.workspaces.contains_key(id) implies (after.workspaces[id].space matches Some(s)
        ==> after.display_spaces.get(after.workspaces[id].display) == Some(s)) by {
        assert(before.workspaces.contains_key(id));
    }
}

/// Putting a display in use keeps the state consistent.
pub proof fn initialization_keeps_consistency(
    before: ManagerModel,
    after: ManagerModel,
    display: DisplayId,
)
    requires
        before.wf(),
        before.initializes(after, display),
    ensures
        after.wf(),
        after.by_display.contains_key(display),
{
    if !before.by_display.contains_key(display) {
        let ids = after.ids_on(display);
        planned_workspaces_are_within_the_limit(before.settings, display);
        assert(forall|id: VirtualWorkspaceId| #[trigger]
            before.workspaces.contains_key(id) ==> after.workspaces.contains_key(id));
        assert forall|i: int| 0 <= i < ids.len() implies after.owns(display, #[trigger] ids[i]) by {
            assert(ids.to_set().contains(ids[i]));
        }
        assert forall|d: DisplayId, i: int|
            #![trigger after.by_display[d][i]]
            after.by_display.contains_key(d) && 0 <= i < after.by_display[d].len() implies after.owns(
            d,
            after.by_display[d][i],
        ) by {
            if d != display {
                assert(before.owns(d, before.by_display[d][i]));
            }
        }
        assert forall|id: VirtualWorkspaceId| #[trigger]
            after.workspaces.contains_key(id) implies after.ids_on(
            after.workspaces[id].display,
        ).contains(id) by {
            if before.workspaces.contains_key(id) {
                let d = before.workspaces[id].display;
                assert(before.ids_on(d).contains(id));
            } else {
                assert(ids.to_set().contains(id));
                let i = choose|i: int| 0 <= i < ids.len() && ids[i] == id;
                assert(after.workspaces[ids[i]].display == display);
            }
        }
        assert(after.displays_in_order());
        assert(after.active_in_order());
        assert forall|id: VirtualWorkspaceId, w: WindowId|
            #![trigger after.workspaces[id].windows.contains(w)]
            after.workspaces.contains_key(id) && after.workspaces[id].windows.contains(w) implies {
            &&& after.assigned.contains_key((after.workspaces[id].display, w))
            &&& after.assigned[(after.workspaces[id].display, w)] == id
        } by {
            if !before.workspaces.contains_key(id) {
                assert(ids.to_set().contains(id));
                let i = choose|i: int| 0 <= i < ids.len() && ids[i] == id;
                assert(after.workspaces[ids[i]].windows == Set::<WindowId>::empty());
            } else {
                assert(before.workspaces[id].windows.contains(w));
            }
        }
        assert(after.windows_in_order());
        assert forall|id: VirtualWorkspaceId| #[trigger]
            after.workspaces.contains_key(id) implies (after.workspaces[id].space matches Some(s)
            ==> after.display_spaces.get(after.workspaces[id].display) == Some(s)) by {
            if !before.workspaces.contains_key(id) {
                assert(ids.to_set().contains(id));
                let i = choose|i: int| 0 <= i < ids.len() && ids[i] == id;
                assert(after.workspaces[ids[i]].space is None);
            }
        }
        assert(after.places_in_order());
    }
}

/// Adding a workspace keeps the state consistent.
pub proof fn creation_keeps_consistency(
    before: ManagerModel,
    after: ManagerModel,
    display: DisplayId,
    name: Option<Seq<char>>,
    result: Result<VirtualWorkspaceId, WorkspaceError>,
)
    requires
        before.wf(),
        before.creates(after, display, name, result),
    ensures
        after.wf(),
{
    let ready = choose|ready: ManagerModel| #[trigger]
        before.initializes(ready, display) && ready.adds(after, display, name, result);
    initialization_keeps_consistency(before, ready, display);
    if let Ok(id) = result {
        let old_ids = ready.ids_on(display);
        let ids = after.ids_on(display);
        assert(ids == old_ids.push(id));
        assert forall|d: DisplayId, i: int|
            #![trigger after.by_display[d][i]]
            after.by_display.contains_key(d) && 0 <= i < after.by_display[d].len() implies after.owns(
            d,
            after.by_display[d][i],
        ) by {
            if d != display || i < old_ids.len() {
                assert(ready.owns(d, ready.by_display[d][i]));
                assert(after.by_display[d][i] == ready.by_display[d][i]);
            }
        }
        assert forall|x: VirtualWorkspaceId| #[trigger]
            after.workspaces.contains_key(x) implies after.ids_on(
            after.workspaces[x].display,
        ).contains(x) by {
            if x == id {
                assert(ids[old_ids.len() as int] == id);
            } else {
                let d = ready.workspaces[x].display;
                assert(ready.ids_on(d).contains(x));
                if d == display {
                    let i = choose|i: int| 0 <= i < old_ids.len() && old_ids[i] == x;
                    assert(ids[i] == x);
                }
            }
        }
        assert(!old_ids.contains(id)) by {
            if old_ids.contains(id) {
                let i = choose|i: int| 0 <= i < old_ids.len() && old_ids[i] == id;
                assert(ready.owns(display, ready.by_display[display][i]));
            }
        }
        assert(ids.no_duplicates());
        assert(after.displays_in_order());
        assert(after.active_in_order());
        assert forall|x: VirtualWorkspaceId, w: WindowId|
            #![trigger after.workspaces[x].windows.contains(w)]
            after.workspaces.contains_key(x) && after.workspaces[x].windows.contains(w) implies {
            &&& after.assigned.contains_key((after.workspaces[x].display, w))
            &&& after.assigned[(after.workspaces[x].display, w)] == x
        } by {
            if x != id {
                assert(ready.workspaces[x].windows.contains(w));
            }
        }
        assert(after.windows_in_order());
        assert(after.places_in_order());
    }
}

/// Recording the space of a display keeps the state consistent.
pub proof fn space_update_keeps_consistency(before: ManagerModel, display: DisplayId, space: SpaceId)
    requires
        before.wf(),
    ensures
        before.with_space(display, space).wf(),
{
    let after = before.with_space(display, space);
    displays_stay_in_order(before, after);
    assert(after.active_in_order());
    assert(after.windows_in_order()) by {
        assert forall|id: VirtualWorkspaceId, w: WindowId|
            #![trigger after.workspaces[id].windows.contains(w)]
            after.workspaces.contains_key(id) && after.workspaces[id].windows.contains(w) implies {
            &&& after.assigned.contains_key((after.workspaces[id].display, w))
            &&& after.assigned[(after.workspaces[id].display, w)] == id
        } by {
            assert(before.workspaces[id].windows.contains(w));
        }
    }
    positions_stay_in_order(before, after);
    assert forall|id: VirtualWorkspaceId| #[trigger]
        after.workspaces.contains_key(id) implies (after.workspaces[id].space matches Some(s)
        ==> after.display_spaces.get(after.workspaces[id].display) == Some(s)) by {
        assert(before.workspaces.contains_key(id));
    }
}

/// Once the space of a display has been recorded, it is found under the display, the display is
/// one that shows it, and each workspace of the display knows it.
pub proof fn recorded_space_is_found(before: ManagerModel, display: DisplayId, space: SpaceId)
    requires
        before.wf(),
    ensures
        ({
            let after = before.with_space(display, space);
            &&& after.display_spaces.get(display) == Some(space)
            &&& after.display_spaces.contains_value(space)
            &&& forall|id: VirtualWorkspaceId| #[trigger]
                after.owns(display, id) ==> after.workspaces[id].space == Some(space)
            &&& forall|d: DisplayId|
                d != display ==> after.display_spaces.get(d) == #[trigger] before.display_spaces.get(d)
        }),
{
    let after = before.with_space(display, space);
    assert(after.display_spaces.contains_key(display));
    assert forall|id: VirtualWorkspaceId| #[trigger]
        after.owns(display, id) implies after.workspaces[id].space == Some(space) by {
        assert(before.workspaces.contains_key(id));
    }
}

/// Showing a workspace of the display keeps the state consistent.
pub proof fn activation_keeps_consistency(
    before: ManagerModel,
    display: DisplayId,
    id: VirtualWorkspaceId,
)
    requires
        before.wf(),
        before.owns(display, id),
    ensures
        before.activated(display, id).wf(),
{
    let after = before.activated(display, id);
    assert(before.ids_on(display).contains(id));
    assert(after.displays_in_order());
    assert(after.active_in_order());
    assert(after.windows_in_order());
    assert(after.places_in_order());
}

/// A display shows the workspace that it was last told to show and remembers the one before; the
/// other displays go on showing theirs.
pub proof fn switched_workspace_is_shown(
    before: ManagerModel,
    display: DisplayId,
    id: VirtualWorkspaceId,
)
    ensures
        before.activated(display, id).active_on(display) == Some(id),
        before.activated(display, id).last_on(display) == before.active_on(display),
        forall|d: DisplayId|
            d != display ==> before.activated(display, id).active_on(d) == #[trigger] before.active_on(
                d,
            ) && before.activated(display, id).last_on(d) == before.last_on(d),
{
}

/// Switching to another workspace and then to the one that was shown before leads back, and a
/// further switch of that kind leads forth again.
pub proof fn switching_goes_back_and_forth(
    before: ManagerModel,
    display: DisplayId,
    id: VirtualWorkspaceId,
)
    requires
        before.active.contains_key(display),
    ensures
        ({
            let there = before.activated(display, id);
            let back = there.activated(display, there.last_on(display)->0);
            let again = back.activated(display, back.last_on(display)->0);
            &&& there.last_on(display) is Some
            &&& back.active_on(display) == before.active_on(display)
            &&& back.last_on(display) is Some
            &&& again.active_on(display) == Some(id)
        }),
{
}

/// Dropping the assignments of windows keeps the state consistent.
pub proof fn removal_keeps_consistency(before: ManagerModel, pred: spec_fn(WindowId) -> bool)
    requires
        before.wf(),
    ensures
        before.evicted(before.assignments_of(pred)).wf(),
{
    eviction_keeps_consistency(before, before.assignments_of(pred));
}

proof fn eviction_keeps_consistency(before: ManagerModel, gone: Set<(DisplayId, WindowId)>)
    requires
        before.wf(),
        gone.subset_of(before.assigned.dom()),
    ensures
        before.evicted(gone).wf(),
{
    let after = before.evicted(gone);
    displays_stay_in_order(before, after);
    assert(after.active_in_order());
    assert(after.windows_in_order()) by {
        assert forall|d: DisplayId, w: WindowId| #[trigger]
            after.assigned.contains_key((d, w)) implies {
            &&& after.owns(d, after.assigned[(d, w)])
            &&& after.workspaces[after.assigned[(d, w)]].windows.contains(w)
        } by {
            let id = before.assigned[(d, w)];
            assert(before.assigned.contains_key((d, w)));
            if before.leaving(gone, id).contains(w) {
                let other = choose|other: DisplayId| #[trigger]
                    gone.contains((other, w)) && before.assigned[(other, w)] == id;
                assert(before.assigned.contains_key((other, w)));
                assert(other == d);
            }
        }
        assert forall|id: VirtualWorkspaceId, w: WindowId|
            #![trigger after.workspaces[id].windows.contains(w)]
            after.workspaces.contains_key(id) && after.workspaces[id].windows.contains(w) implies {
            &&& after.assigned.contains_key((after.workspaces[id].display, w))
            &&& after.assigned[(after.workspaces[id].display, w)] == id
        } by {
            let d = before.workspaces[id].display;
            assert(before.workspaces[id].windows.contains(w));
            assert(before.assigned.contains_key((d, w)));
            if gone.contains((d, w)) {
                assert(before.leaving(gone, id).contains(w));
            }
        }
        assert forall|d1: DisplayId, d2: DisplayId, w: WindowId|
            #![trigger after.assigned.contains_key((d1, w)), after.assigned.contains_key((d2, w))]
            after.assigned.contains_key((d1, w)) && after.assigned.contains_key((d2, w)) implies d1
            == d2 by {
            assert(before.assigned.contains_key((d1, w)) && before.assigned.contains_key((d2, w)));
        }
        assert forall|k: (DisplayId, WindowId)| #[trigger]
            after.rule_floating.contains_key(k) implies after.assigned.contains_key(k) by {
            assert(before.rule_floating.contains_key(k));
        }
    }
    places_stay_in_order(before, after);
}

/// A removed window is in no workspace and no rule lets it float; the other windows stay where
/// they are.
pub proof fn removed_windows_are_nowhere(before: ManagerModel, pred: spec_fn(WindowId) -> bool)
    requires
        before.wf(),
    ensures
        ({
            let after = before.evicted(before.assignments_of(pred));
            &&& forall|w: WindowId| #[trigger] pred(w) ==> !after.is_assigned(w)
            &&& forall|d: DisplayId, w: WindowId|
                pred(w) ==> !#[trigger] after.rule_floating.contains_key((d, w))
            &&& forall|id: VirtualWorkspaceId, w: WindowId|
                before.workspaces.contains_key(id) ==> (#[trigger] after.workspaces[id].windows.contains(w)
                    <==> before.workspaces[id].windows.contains(w) && !pred(w))
            &&& forall|d: DisplayId, w: WindowId|
                !pred(w) ==> after.assigned.get((d, w)) == #[trigger] before.assigned.get((d, w))
        }),
{
    let gone = before.assignments_of(pred);
    let after = before.evicted(gone);
    assert forall|id: VirtualWorkspaceId, w: WindowId|
        before.workspaces.contains_key(id) implies (#[trigger] after.workspaces[id].windows.contains(w)
        <==> before.workspaces[id].windows.contains(w) && !pred(w)) by {
        if before.leaving(gone, id).contains(w) {
            let d = choose|d: DisplayId| #[trigger]
                gone.contains((d, w)) && before.assigned[(d, w)] == id;
            assert(pred(w));
        }
        if before.workspaces[id].windows.contains(w) && pred(w) {
            let d = before.workspaces[id].display;
            assert(gone.contains((d, w)));
            assert(before.leaving(gone, id).contains(w));
        }
    }
    assert forall|d: DisplayId, w: WindowId|
        pred(w) implies !#[trigger] after.rule_floating.contains_key((d, w)) by {
        if before.rule_floating.contains_key((d, w)) {
            assert(before.assigned.contains_key((d, w)));
            assert(gone.contains((d, w)));
        }
    }
    assert forall|w: WindowId| #[trigger] pred(w) implies !after.is_assigned(w) by {
        if after.is_assigned(w) {
            let d = choose|d: DisplayId| #[trigger] after.assigned.contains_key((d, w));
            assert(gone.contains((d, w)));
        }
    }
}

/// Moving a window into a workspace of the display keeps the state consistent.
pub proof fn assignment_keeps_consistency(
    before: ManagerModel,
    after: ManagerModel,
    display: DisplayId,
    window: WindowId,
    id: VirtualWorkspaceId,
)
    requires
        before.wf(),
        before.owns(display, id),
        before.assigns(after, display, window, id),
    ensures
        after.wf(),
{
    let mid = cleared_for(before, after, display, window, id);
    assert(forall|d: DisplayId| !#[trigger] mid.assigned.contains_key((d, window)));
    assert(mid.owns(display, id));
    assert(after == mid.placed(display, window, id));
    displays_stay_in_order(mid, after);
    assert(after.active_in_order());
    assert(after.windows_in_order()) by {
        assert forall|d: DisplayId, w: WindowId| #[trigger]
            after.assigned.contains_key((d, w)) implies {
            &&& after.owns(d, after.assigned[(d, w)])
            &&& after.workspaces[after.assigned[(d, w)]].windows.contains(w)
        } by {
            if (d, w) != (display, window) {
                assert(mid.assigned.contains_key((d, w)));
            }
        }
        assert forall|x: VirtualWorkspaceId, w: WindowId|
            #![trigger after.workspaces[x].windows.contains(w)]
            after.workspaces.contains_key(x) && after.workspaces[x].windows.contains(w) implies {
            &&& after.assigned.contains_key((after.workspaces[x].display, w))
            &&& after.assigned[(after.workspaces[x].display, w)] == x
        } by {
            if !(x == id && w == window) {
                assert(mid.workspaces[x].windows.contains(w));
                assert(mid.assigned.contains_key((mid.workspaces[x].display, w)));
            }
        }
        assert forall|d1: DisplayId, d2: DisplayId, w: WindowId|
            #![trigger after.assigned.contains_key((d1, w)), after.assigned.contains_key((d2, w))]
            after.assigned.contains_key((d1, w)) && after.assigned.contains_key((d2, w)) implies d1
            == d2 by {
            if w != window {
                assert(mid.assigned.contains_key((d1, w)) && mid.assigned.contains_key((d2, w)));
            } else {
                assert(!mid.assigned.contains_key((d1, window)));
                assert(!mid.assigned.contains_key((d2, window)));
            }
        }
        assert forall|k: (DisplayId, WindowId)| #[trigger]
            after.rule_floating.contains_key(k) implies after.assigned.contains_key(k) by {
            assert(mid.rule_floating.contains_key(k));
        }
    }
    places_stay_in_order(mid, after);
}

/// The state between taking a window out of its workspace and putting it into the next.
pub(crate) proof fn cleared_for(
    before: ManagerModel,
    after: ManagerModel,
    display: DisplayId,
    window: WindowId,
    id: VirtualWorkspaceId,
) -> (mid: ManagerModel)
    requires
        before.wf(),
        before.owns(display, id),
        before.assigns(after, display, window, id),
    ensures
        mid.wf(),
        mid.workspaces.dom() == before.workspaces.dom(),
        mid.by_display == before.by_display,
        mid.active == before.active,
        mid.owns(display, id),
        !mid.is_assigned(window),
        mid == before.evicted(before.assignments_of(|w: WindowId| w == window)),
        after == mid.placed(display, window, id),
{
    let pred = |w: WindowId| w == window;
    let gone = before.assignments_of(pred);
    let mid = before.evicted(gone);
    removal_keeps_consistency(before, pred);
    removed_windows_are_nowhere(before, pred);
    assert(pred(window));
    if before.is_assigned(window) {
        let d = choose|d: DisplayId| #[trigger]
            before.assigned.contains_key((d, window)) && after == before.evicted(
                set![(d, window)],
            ).placed(display, window, id);
        assert forall|k: (DisplayId, WindowId)| gone.contains(k) <==> set![
            (d, window),
        ].contains(k) by {
            if gone.contains(k) {
                assert(before.assigned.contains_key((k.0, window)));
                assert(before.assigned.contains_key((d, window)));
            }
        }
        assert(gone =~= set![(d, window)]);
    } else {
        assert forall|k: (DisplayId, WindowId)| !gone.contains(k) by {
            if gone.contains(k) {
                assert(before.assigned.contains_key((k.0, window)));
            }
        }
        assert(gone =~= Set::<(DisplayId, WindowId)>::empty());
        assert forall|x: VirtualWorkspaceId| #[trigger]
            before.workspaces.contains_key(x) implies mid.workspaces[x] == before.workspaces[x] by {
            assert(before.leaving(gone, x) =~= Set::<WindowId>::empty());
            assert(mid.workspaces[x] =~= before.workspaces[x]);
        }
        assert(mid.workspaces =~= before.workspaces);
        assert(mid =~= before);
    }
    assert(mid.workspaces.dom() =~= before.workspaces.dom());
    mid
}

/// A window is found in the workspace that it was moved into, and in no other; the other windows
/// stay where they are.
pub proof fn assigned_window_is_found(
    before: ManagerModel,
    after: ManagerModel,
    display: DisplayId,
    window: WindowId,
    id: VirtualWorkspaceId,
)
    requires
        before.wf(),
        before.owns(display, id),
        before.assigns(after, display, window, id),
    ensures
        after.assigned.get((display, window)) == Some(id),
        forall|d: DisplayId| #[trigger] after.assigned.contains_key((d, window)) ==> d == display,
        forall|x: VirtualWorkspaceId|
            after.workspaces.contains_key(x) ==> (#[trigger] after.workspaces[x].windows.contains(
                window,
            ) <==> x == id),
        forall|d: DisplayId, w: WindowId|
            w != window ==> after.assigned.get((d, w)) == #[trigger] before.assigned.get((d, w)),
        forall|x: VirtualWorkspaceId, w: WindowId|
            before.workspaces.contains_key(x) && w != window ==> (
            #[trigger] after.workspaces[x].windows.contains(w)
                <==> before.workspaces[x].windows.contains(w)),
{
    let mid = cleared_for(before, after, display, window, id);
    let pred = |w: WindowId| w == window;
    removed_windows_are_nowhere(before, pred);
    assert forall|d: DisplayId| #[trigger] after.assigned.contains_key((d, window)) implies d
        == display by {
        assert(!mid.assigned.contains_key((d, window)));
    }
    assert forall|x: VirtualWorkspaceId| after.workspaces.contains_key(x) implies (
    #[trigger] after.workspaces[x].windows.contains(window) <==> x == id) by {
        assert(mid.workspaces.contains_key(x));
        assert(!mid.workspaces[x].windows.contains(window)) by {
            if mid.workspaces[x].windows.contains(window) {
                assert(mid.assigned.contains_key((mid.workspaces[x].display, window)));
            }
        }
    }
    assert forall|d: DisplayId, w: WindowId| w != window implies after.assigned.get((d, w))
        == #[trigger] before.assigned.get((d, w)) by {
        assert(!pred(w));
        assert(mid.assigned.get((d, w)) == before.assigned.get((d, w)));
    }
    assert forall|x: VirtualWorkspaceId, w: WindowId|
        before.workspaces.contains_key(x) && w != window implies (
    #[trigger] after.workspaces[x].windows.contains(w) <==> before.workspaces[x].windows.contains(
        w,
    )) by {
        assert(!pred(w));
        assert(mid.workspaces[x].windows.contains(w) <==> before.workspaces[x].windows.contains(w));
    }
}

/// In a consistent state a display always has a workspace for new windows: the one that it shows
/// once it is in use. Finding it changes nothing else.
pub proof fn default_workspace_is_found(
    before: ManagerModel,
    after: ManagerModel,
    display: DisplayId,
    result: Result<VirtualWorkspaceId, WorkspaceError>,
)
    requires
        before.wf(),
        before.settings.max_workspaces >= 1,
        before.defaults_to(after, display, result),
    ensures
        after.wf(),
        after.by_display.contains_key(display),
        before.initializes(after, display),
        result is Ok,
        after.owns(display, result->Ok_0),
        after.active_on(display) == Some(result->Ok_0),
        before.active.contains_key(display) ==> result->Ok_0 == before.active[display].1,
        after.assigned == before.assigned,
        after.rule_floating == before.rule_floating,
{
    let ready = choose|ready: ManagerModel| #[trigger]
        before.initializes(ready, display) && ready.picks_default(after, display, result);
    initialization_keeps_consistency(before, ready, display);
    assert(ready.by_display.contains_key(display) && ready.by_display[display].len() > 0);
    assert(ready.active.contains_key(display));
}

/// Recording whether a rule lets an assigned window float keeps the state consistent.
pub proof fn floating_record_keeps_consistency(
    before: ManagerModel,
    display: DisplayId,
    window: WindowId,
    floating: bool,
)
    requires
        before.wf(),
        before.assigned.contains_key((display, window)),
    ensures
        before.with_rule_floating(display, window, floating).wf(),
{
    let after = before.with_rule_floating(display, window, floating);
    assert(after.displays_in_order());
    assert(after.active_in_order());
    assert(after.windows_in_order()) by {
        assert forall|k: (DisplayId, WindowId)| #[trigger]
            after.rule_floating.contains_key(k) implies after.assigned.contains_key(k) by {
            if k != (display, window) {
                assert(before.rule_floating.contains_key(k));
            }
        }
    }
    assert(after.places_in_order());
}

proof fn settling_keeps_consistency(
    before: ManagerModel,
    after: ManagerModel,
    display: DisplayId,
    window: WindowId,
    id: VirtualWorkspaceId,
    floating: bool,
)
    requires
        before.wf(),
        before.settles(after, display, window, id, floating),
    ensures
        after.wf(),
        after.by_display == before.by_display,
        after.active == before.active,
        after.assigned.get((display, window)) == Some(id),
        after.rule_floating.contains_key((display, window)) == floating,
        floating ==> after.rule_floating[(display, window)],
        after.workspaces.dom() == before.workspaces.dom(),
        forall|x: VirtualWorkspaceId| #[trigger]
            before.workspaces.contains_key(x) ==> after.workspaces[x].name
                == before.workspaces[x].name,
{
    let moved = choose|moved: ManagerModel| #[trigger]
        before.assigns(moved, display, window, id) && after == moved.with_rule_floating(
            display,
            window,
            floating,
        );
    assignment_keeps_consistency(before, moved, display, window, id);
    assigned_window_is_found(before, moved, display, window, id);
    assert(moved.assigned.contains_key((display, window)));
    floating_record_keeps_consistency(moved, display, window, floating);
    let mid = cleared_for(before, moved, display, window, id);
}

/// A new window can always be put into the workspace that the display shows: the request
/// succeeds in every consistent state, and keeps it consistent.
pub proof fn automatic_assignment_succeeds(
    before: ManagerModel,
    after: ManagerModel,
    display: DisplayId,
    window: WindowId,
    result: Result<VirtualWorkspaceId, WorkspaceError>,
)
    requires
        before.wf(),
        before.settings.max_workspaces >= 1,
        before.settles_by_default(after, display, window, result),
    ensures
        after.wf(),
        after.by_display.contains_key(display),
        result is Ok,
        after.assigned.get((display, window)) == Some(result->Ok_0),
        !after.rule_floating.contains_key((display, window)),
        after.active_on(display) == Some(result->Ok_0),
        before.active.contains_key(display) ==> result->Ok_0 == before.active[display].1,
{
    let (ready, target) = choose|
        ready: ManagerModel,
        target: Result<VirtualWorkspaceId, WorkspaceError>,
    | #[trigger]
        before.defaults_to(ready, display, target) && match target {
            Err(e) => result == target && after == ready,
            Ok(id) => if ready.owns(display, id) {
                result == target && ready.settles(after, display, window, id, false)
            } else {
                result == Err::<VirtualWorkspaceId, WorkspaceError>(
                    WorkspaceError::AssignmentFailed,
                ) && after == ready
            },
        };
    default_workspace_is_found(before, ready, display, target);
    settling_keeps_consistency(ready, after, display, window, target->Ok_0, false);
}

/// A window of an application can always be given a workspace, whatever rule applies to it: the
/// request succeeds in every consistent state and keeps it consistent. The window is then in the
/// workspace that came back, and floats by rule exactly when the request said so. A window that
/// had no workspace floats when the rule says so, and without a rule it is in the workspace that
/// the display shows.
pub proof fn assignment_by_rule_succeeds(
    before: ManagerModel,
    after: ManagerModel,
    display: DisplayId,
    window: WindowId,
    rule: Option<AppWorkspaceRule>,
    result: Result<(VirtualWorkspaceId, bool), WorkspaceError>,
)
    requires
        before.wf(),
        before.settings.max_workspaces >= 1,
        before.assigns_by_rule(after, display, window, rule, result),
    ensures
        after.wf(),
        after.by_display.contains_key(display),
        result is Ok,
        after.assigned.get((display, window)) == Some(result->Ok_0.0),
        (after.rule_floating.contains_key((display, window))
            && after.rule_floating[(display, window)]) == result->Ok_0.1,
        after.owns(display, result->Ok_0.0),
        after.workspaces[result->Ok_0.0].windows.contains(window),
        !before.assigned.contains_key((display, window)) ==> result->Ok_0.1 == (rule is Some
            && rule->0.floating),
        !before.assigned.contains_key((display, window)) && rule is None ==> after.active_on(display)
            == Some(result->Ok_0.0),
{
    let ready = choose|ready: ManagerModel| #[trigger]
        before.initializes(ready, display) && ready.admits(after, display, window, rule, result);
    initialization_keeps_consistency(before, ready, display);
    assert(ready.by_display[display].len() >= 1);
    if ready.assigned.contains_key((display, window)) {
    } else {
        match rule {
            Some(r) => {
                let (found, target) = choose|
                    found: ManagerModel,
                    target: Result<VirtualWorkspaceId, WorkspaceError>,
                | #[trigger]
                    ready.rule_leads_to(found, display, r.workspace, target) && match target {
                        Err(e) => after == found && result == Err::<
                            (VirtualWorkspaceId, bool),
                            WorkspaceError,
                        >(e),
                        Ok(id) => if found.owns(display, id) {
                            &&& found.settles(after, display, window, id, r.floating)
                            &&& result == Ok::<(VirtualWorkspaceId, bool), WorkspaceError>(
                                (id, r.floating),
                            )
                        } else {
                            found.admits_by_default(after, display, window, result)
                        },
                    };
                rule_target_is_found(ready, found, display, r.workspace, target);
                settling_keeps_consistency(
                    found,
                    after,
                    display,
                    window,
                    target->Ok_0,
                    r.floating,
                );
            },
            None => {
                automatic_assignment_succeeds(
                    ready,
                    after,
                    display,
                    window,
                    match result {
                        Ok((id, _)) => Ok(id),
                        Err(e) => Err(e),
                    },
                );
            },
        }
    }
    assert(after.assigned.contains_key((display, window)));
}

proof fn rule_target_is_found(
    before: ManagerModel,
    after: ManagerModel,
    display: DisplayId,
    selector: Option<WorkspaceSelector>,
    result: Result<VirtualWorkspaceId, WorkspaceError>,
)
    requires
        before.wf(),
        before.settings.max_workspaces >= 1,
        before.by_display.contains_key(display),
        before.rule_leads_to(after, display, selector, result),
    ensures
        after.wf(),
        after.by_display.contains_key(display),
        result is Ok,
        after.owns(display, result->Ok_0),
        after == before,
        before.active.contains_key(display),
        named_by(before, display, selector, result->Ok_0),
{
    let listing = before.listing(display);
    let ids = before.by_display[display];
    listing_is_complete(before, display);
    assert(before.active.contains_key(display));
    let names = listing.map_values(|e: (VirtualWorkspaceId, Seq<char>)| e.1);
    if let Some(WorkspaceSelector::Name(n)) = selector {
        names.index_of_first_ensures(n@);
        assert forall|i: int| 0 <= i < ids.len() implies #[trigger] before.workspaces[ids[i]].name
            == names[i] by {}
        if !names.contains(n@) {
            assert forall|i: int| 0 <= i < ids.len() implies #[trigger] before.workspaces[ids[i]].name
                != n@ by {
                assert(names.contains(names[i]));
            }
        }
    }
    match before.selected_index(display, selector) {
        Some(i) if i < before.ids_on(display).len() && i < listing.len() => {
            assert(before.owns(display, before.by_display[display][i]));
            assert(result->Ok_0 == ids[i]);
        },
        _ => {
            default_workspace_is_found(before, after, display, result);
        },
    }
}

/// A window that had no workspace on the display floats by rule when its rule says so, and only then.
pub(crate) proof fn rule_settles_the_window(
    before: ManagerModel,
    after: ManagerModel,
    display: DisplayId,
    window: WindowId,
    rule: Option<AppWorkspaceRule>,
    result: Result<(VirtualWorkspaceId, bool), WorkspaceError>,
)
    requires
        before.wf(),
        before.settings.max_workspaces >= 1,
        !before.assigned.contains_key((display, window)),
        before.assigns_by_rule(after, display, window, rule, result),
    ensures
        after.rule_floating.contains_key((display, window)) <==> rule is Some && rule->0.floating,
{
    let ready = choose|ready: ManagerModel| #[trigger]
        before.initializes(ready, display) && ready.admits(after, display, window, rule, result);
    initialization_keeps_consistency(before, ready, display);
    assert(ready.by_display[display].len() >= 1);
    match rule {
        Some(r) => {
            let (found, target) = choose|
                found: ManagerModel,
                target: Result<VirtualWorkspaceId, WorkspaceError>,
            | #[trigger]
                ready.rule_leads_to(found, display, r.workspace, target) && match target {
                    Err(e) => after == found && result == Err::<
                        (VirtualWorkspaceId, bool),
                        WorkspaceError,
                    >(e),
                    Ok(id) => if found.owns(display, id) {
                        &&& found.settles(after, display, window, id, r.floating)
                        &&& result == Ok::<(VirtualWorkspaceId, bool), WorkspaceError>(
                            (id, r.floating),
                        )
                    } else {
                        found.admits_by_default(after, display, window, result)
                    },
                };
            rule_target_is_found(ready, found, display, r.workspace, target);
            settling_keeps_consistency(found, after, display, window, target->Ok_0, r.floating);
        },
        None => {
            let plain = match result {
                Ok((id, _)) => Ok(id),
                Err(e) => Err(e),
            };
            automatic_assignment_succeeds(ready, after, display, window, plain);
        },
    }
}

/// The workspace of the display that a rule names: the one at the index, the first with the name, or
/// the one that the display shows when the rule names none that the display has.
spec fn named_by(
    model: ManagerModel,
    display: DisplayId,
    selector: Option<WorkspaceSelector>,
    found: VirtualWorkspaceId,
) -> bool {
    let ids = model.by_display[display];
    let shown = model.active[display].1;
    match selector {
        None => found == shown,
        Some(WorkspaceSelector::Index(n)) => found == if n < ids.len() {
            ids[n as int]
        } else {
            shown
        },
        Some(WorkspaceSelector::Name(n)) => {
            ||| exists|i: int|
                {
                    &&& 0 <= i < ids.len()
                    &&& #[trigger] ids[i] == found
                    &&& model.workspaces[ids[i]].name == n@
                    &&& forall|j: int|
                        0 <= j < i ==> (#[trigger] model.workspaces[ids[j]]).name != n@
                }
            ||| found == shown && forall|j: int|
                0 <= j < ids.len() ==> (#[trigger] model.workspaces[ids[j]]).name != n@
        },
    }
}

/// A window that has no workspace on the display yet is put where its rule says. Without a rule, or
/// under one that names no workspace or one that the display does not have, that is the workspace
/// that the display shows, and showed before if it was in use. A rule that gives an index leads to
/// the workspace at that place of the display, and one that gives a name to the first workspace of
/// the display with that name. What the display shows, and its list of workspaces and their names,
/// do not change on that account.
pub proof fn rule_decides_the_workspace(
    before: ManagerModel,
    after: ManagerModel,
    display: DisplayId,
    window: WindowId,
    rule: Option<AppWorkspaceRule>,
    result: Result<(VirtualWorkspaceId, bool), WorkspaceError>,
)
    requires
        before.wf(),
        before.settings.max_workspaces >= 1,
        !before.assigned.contains_key((display, window)),
        before.assigns_by_rule(after, display, window, rule, result),
    ensures
        result is Ok,
        after.by_display.contains_key(display),
        after.active.contains_key(display),
        before.by_display.contains_key(display) ==> {
            &&& after.by_display == before.by_display
            &&& after.active == before.active
        },
        rule is None || rule->0.workspace is None ==> result->Ok_0.0 == after.active[display].1,
        rule matches Some(r) ==> (r.workspace matches Some(WorkspaceSelector::Index(n)) ==> {
            let ids = after.by_display[display];
            if n < ids.len() {
                result->Ok_0.0 == ids[n as int]
            } else {
                result->Ok_0.0 == after.active[display].1
            }
        }),
        rule matches Some(r) ==> (r.workspace matches Some(WorkspaceSelector::Name(n)) ==> {
            let ids = after.by_display[display];
            ||| exists|i: int|
                {
                    &&& 0 <= i < ids.len()
                    &&& #[trigger] ids[i] == result->Ok_0.0
                    &&& after.workspaces[ids[i]].name == n@
                    &&& forall|j: int|
                        0 <= j < i ==> (#[trigger] after.workspaces[ids[j]]).name != n@
                }
            ||| result->Ok_0.0 == after.active[display].1 && forall|j: int|
                0 <= j < ids.len() ==> (#[trigger] after.workspaces[ids[j]]).name != n@
        }),
{
    assignment_by_rule_succeeds(before, after, display, window, rule, result);
    let ready = choose|ready: ManagerModel| #[trigger]
        before.initializes(ready, display) && ready.admits(after, display, window, rule, result);
    initialization_keeps_consistency(before, ready, display);
    assert(ready.by_display[display].len() >= 1);
    assert(ready.active.contains_key(display));
    match rule {
        Some(r) => {
            let (found, target) = choose|
                found: ManagerModel,
                target: Result<VirtualWorkspaceId, WorkspaceError>,
            | #[trigger]
                ready.rule_leads_to(found, display, r.workspace, target) && match target {
                    Err(e) => after == found && result == Err::<
                        (VirtualWorkspaceId, bool),
                        WorkspaceError,
                    >(e),
                    Ok(id) => if found.owns(display, id) {
                        &&& found.settles(after, display, window, id, r.floating)
                        &&& result == Ok::<(VirtualWorkspaceId, bool), WorkspaceError>(
                            (id, r.floating),
                        )
                    } else {
                        found.admits_by_default(after, display, window, result)
                    },
                };
            rule_target_is_found(ready, found, display, r.workspace, target);
            settling_keeps_consistency(found, after, display, window, target->Ok_0, r.floating);
            let ids = ready.by_display[display];
            assert forall|j: int| 0 <= j < ids.len() implies (#[trigger] after.workspaces[ids[j]]).name
                == ready.workspaces[ids[j]].name by {
                assert(ready.owns(display, ready.by_display[display][j]));
            }
            if let Some(WorkspaceSelector::Name(n)) = r.workspace {
                let id = result->Ok_0.0;
                if exists|i: int|
                    {
                        &&& 0 <= i < ids.len()
                        &&& #[trigger] ids[i] == id
                        &&& ready.workspaces[ids[i]].name == n@
                        &&& forall|j: int|
                            0 <= j < i ==> (#[trigger] ready.workspaces[ids[j]]).name != n@
                    } {
                    let i = choose|i: int|
                        {
                            &&& 0 <= i < ids.len()
                            &&& #[trigger] ids[i] == id
                            &&& ready.workspaces[ids[i]].name == n@
                            &&& forall|j: int|
                                0 <= j < i ==> (#[trigger] ready.workspaces[ids[j]]).name != n@
                        };
                    assert(after.by_display[display][i] == id);
                    assert(after.workspaces[ids[i]].name == n@);
                    assert forall|j: int| 0 <= j < i implies (
                    #[trigger] after.workspaces[ids[j]]).name != n@ by {
                        assert(ready.workspaces[ids[j]].name != n@);
                    }
                } else {
                    assert forall|j: int| 0 <= j < ids.len() implies (
                    #[trigger] after.workspaces[ids[j]]).name != n@ by {
                        assert(ready.workspaces[ids[j]].name != n@);
                    }
                }
            }
        },
        None => {
            let plain = match result {
                Ok((id, _)) => Ok(id),
                Err(e) => Err(e),
            };
            automatic_assignment_succeeds(ready, after, display, window, plain);
            let (found, target) = choose|
                found: ManagerModel,
                target: Result<VirtualWorkspaceId, WorkspaceError>,
            | #[trigger]
                ready.defaults_to(found, display, target) && match target {
                    Err(e) => plain == target && after == found,
                    Ok(id) => if found.owns(display, id) {
                        plain == target && found.settles(after, display, window, id, false)
                    } else {
                        plain == Err::<VirtualWorkspaceId, WorkspaceError>(
                            WorkspaceError::AssignmentFailed,
                        ) && after == found
                    },
                };
            default_workspace_is_found(ready, found, display, target);
            settling_keeps_consistency(found, after, display, window, target->Ok_0, false);
        },
    }
}

/// In a consistent state the listing of a display holds each of its workspaces, in order.
pub proof fn listing_is_complete(model: ManagerModel, display: DisplayId)
    requires
        model.wf(),
    ensures
        model.listing(display) == model.ids_on(display).map_values(
            |id: VirtualWorkspaceId| (id, model.workspaces[id].name),
        ),
        forall|id: VirtualWorkspaceId|
            #[trigger] model.ids_on(display).contains(id) <==> model.owns(display, id),
        model.ids_on(display).no_duplicates(),
{
    let ids = model.ids_on(display);
    let present = |id: VirtualWorkspaceId| model.workspaces.contains_key(id);
    assert forall|i: int| 0 <= i < ids.len() implies present(#[trigger] ids[i]) by {
        assert(model.owns(display, model.by_display[display][i]));
    }
    lemma_filter_all(ids, present);
    assert forall|id: VirtualWorkspaceId| #[trigger] ids.contains(id) <==> model.owns(
        display,
        id,
    ) by {
        if ids.contains(id) {
            let i = choose|i: int| 0 <= i < ids.len() && ids[i] == id;
            assert(model.owns(display, model.by_display[display][i]));
        }
    }
}

/// A filter that every element passes keeps them all.
pub(crate) proof fn lemma_filter_all<A>(s: Seq<A>, pred: spec_fn(A) -> bool)
    requires
        forall|i: int| 0 <= i < s.len() ==> pred(#[trigger] s[i]),
    ensures
        s.filter(pred) == s,
    decreases s.len(),
{
    reveal(Seq::filter);
    if s.len() > 0 {
        assert forall|i: int| 0 <= i < s.drop_last().len() implies pred(
            #[trigger] s.drop_last()[i],
        ) by {
            assert(pred(s[i]));
        }
        lemma_filter_all(s.drop_last(), pred);
        assert(pred(s[s.len() - 1]));
        assert(s.drop_last().push(s.last()) =~= s);
    } else {
        assert(s.filter(pred) =~= s);
    }
}

/// A window that has been given a workspace keeps it, and keeps floating or not, when it comes
/// again, whatever rule applies to it then.
pub proof fn assigned_window_keeps_its_state(
    before: ManagerModel,
    between: ManagerModel,
    after: ManagerModel,
    display: DisplayId,
    window: WindowId,
    rule: Option<AppWorkspaceRule>,
    later_rule: Option<AppWorkspaceRule>,
    result: Result<(VirtualWorkspaceId, bool), WorkspaceError>,
    later_result: Result<(VirtualWorkspaceId, bool), WorkspaceError>,
)
    requires
        before.wf(),
        before.settings.max_workspaces >= 1,
        before.assigns_by_rule(between, display, window, rule, result),
        between.assigns_by_rule(after, display, window, later_rule, later_result),
    ensures
        later_result == result,
        after == between,
{
    assignment_by_rule_succeeds(before, between, display, window, rule, result);
    let ready = choose|ready: ManagerModel| #[trigger]
        between.initializes(ready, display) && ready.admits(
            after,
            display,
            window,
            later_rule,
            later_result,
        );
    assert(between.assigned.contains_key((display, window)));
    assert(between.owns(display, between.assigned[(display, window)]));
    assert(between.ids_on(display).contains(between.assigned[(display, window)]));
}

/// A new workspace comes last in the listing of its display, under the name that was asked for,
/// and the rest of the listing stays.
pub proof fn created_workspace_is_listed_last(
    before: ManagerModel,
    after: ManagerModel,
    display: DisplayId,
    name: Option<Seq<char>>,
    result: Result<VirtualWorkspaceId, WorkspaceError>,
)
    requires
        before.wf(),
        before.by_display.contains_key(display),
        before.creates(after, display, name, result),
        result is Ok,
    ensures
        after.listing(display) == before.listing(display).push(
            (
                result->Ok_0,
                match name {
                    Some(n) => n,
                    None => crate::model::manager_model::numbered_name(before.counter as nat),
                },
            ),
        ),
        after.owns(display, result->Ok_0),
{
    creation_keeps_consistency(before, after, display, name, result);
    listing_is_complete(before, display);
    listing_is_complete(after, display);
    let ready = choose|ready: ManagerModel| #[trigger]
        before.initializes(ready, display) && ready.adds(after, display, name, result);
    let id = result->Ok_0;
    let ids = before.ids_on(display);
    assert(after.ids_on(display) == ids.push(id));
    assert forall|i: int| 0 <= i < ids.len() implies #[trigger] before.workspaces[ids[i]]
        == after.workspaces[ids[i]] by {
        assert(before.owns(display, before.by_display[display][i]));
    }
    assert forall|i: int| 0 <= i < after.listing(display).len() implies after.listing(display)[i]
        == before.listing(display).push((id, after.workspaces[id].name))[i] by {
        if i < ids.len() {
            assert(after.ids_on(display)[i] == ids[i]);
            assert(before.workspaces[ids[i]] == after.workspaces[ids[i]]);
        }
    }
    assert(after.listing(display) =~= before.listing(display).push((id, after.workspaces[id].name)));
}

/// A step and a step back lead to where the walk began, from every workspace that the walk goes
/// through.
pub proof fn stepping_back_undoes_a_step(
    model: ManagerModel,
    display: DisplayId,
    current: VirtualWorkspaceId,
    skip_empty: Option<bool>,
    next: Option<VirtualWorkspaceId>,
    back: Option<VirtualWorkspaceId>,
)
    requires
        model.wf(),
        model.ring(display, skip_empty).contains(current),
        model.steps_to(display, current, skip_empty, Direction::Right, next),
        next is Some ==> model.steps_to(display, next->0, skip_empty, Direction::Left, back),
    ensures
        next is Some,
        back == Some(current),
{
    let ring = model.ring(display, skip_empty);
    let len = ring.len() as int;
    listing_is_complete(model, display);
    if skip_empty == Some(true) {
        crate::common::sequences::lemma_filter_keeps_distinct(
            model.ids_on(display),
            |id: VirtualWorkspaceId| model.offered(id, skip_empty),
        );
    }
    ring.index_of_first_ensures(current);
    let i = ring.index_of_first(current)->0;
    let j = Direction::Right.reach(i, 1, len);
    assert(0 <= j < len) by (nonlinear_arith)
        requires
            j == (i + 1) % len,
            len > 0,
    ;
    ring.index_of_first_ensures(ring[j]);
    assert(ring.contains(ring[j]));
    assert(ring.index_of_first(ring[j]) == Some(j));
    assert((j - 1) % len == i) by (nonlinear_arith)
        requires
            j == (i + 1) % len,
            0 <= i < len,
            0 <= j < len,
    {
        if i + 1 < len {
            assert((i + 1) % len == i + 1);
            assert(i % len == i);
        } else {
            assert(len % len == 0);
            assert((-1int) % len == len - 1);
        }
    }
}

/// A step leads to an existing workspace of the display, and to one with windows when the empty
/// ones are to be skipped.
pub proof fn step_stays_on_the_display(
    model: ManagerModel,
    display: DisplayId,
    current: VirtualWorkspaceId,
    skip_empty: Option<bool>,
    direction: Direction,
    found: VirtualWorkspaceId,
)
    requires
        model.wf(),
        model.steps_to(display, current, skip_empty, direction, Some(found)),
    ensures
        model.owns(display, found),
        skip_empty == Some(true) ==> model.workspaces[found].windows != Set::<WindowId>::empty(),
{
    listing_is_complete(model, display);
    let ring = model.ring(display, skip_empty);
    let all = model.offered_ids(display, Some(false));
    if ring.contains(current) {
        let len = ring.len() as int;
        let from = ring.index_of_first(current)->0;
        let j = direction.reach(from, 1, len);
        lemma_reach_in_range(direction, from, 1, len);
        assert(ring.contains(ring[j]));
        if skip_empty == Some(true) {
            crate::common::sequences::lemma_filter_contains(
                model.ids_on(display),
                |id: VirtualWorkspaceId| model.offered(id, skip_empty),
                found,
            );
        }
        assert(model.ids_on(display).contains(found));
    } else {
        let start = all.index_of_first(current)->0;
        let len = all.len() as int;
        let n = choose|n: int|
            {
                &&& 1 <= n <= len
                &&& found == all[#[trigger] direction.reach(start, n, len)]
                &&& model.offered(found, Some(true))
                &&& forall|m: int|
                    1 <= m < n ==> !model.offered(
                        all[#[trigger] direction.reach(start, m, len)],
                        Some(true),
                    )
            };
        lemma_reach_in_range(direction, start, n, len);
        assert(all.contains(found));
        crate::common::sequences::lemma_filter_contains(
            model.ids_on(display),
            |id: VirtualWorkspaceId| model.offered(id, Some(false)),
            found,
        );
        assert(model.ids_on(display).contains(found));
    }
}

proof fn lemma_reach_in_range(direction: Direction, from: int, n: int, len: int)
    requires
        len > 0,
    ensures
        0 <= direction.reach(from, n, len) < len,
{
    let there = from + n;
    let back = from - n;
    assert(0 <= there % len < len) by (nonlinear_arith)
        requires
            len > 0,
    ;
    assert(0 <= back % len < len) by (nonlinear_arith)
        requires
            len > 0,
    ;
}

/// Storing positions keeps the state consistent.
pub proof fn storing_positions_keeps_consistency(
    before: ManagerModel,
    display: DisplayId,
    stored: Seq<(WindowId, Frame)>,
)
    requires
        before.wf(),
    ensures
        before.with_positions(display, stored).wf(),
{
    let after = before.with_positions(display, stored);
    assert(after.displays_in_order());
    assert(after.active_in_order());
    assert(after.windows_in_order());
    assert(after.places_in_order()) by {
        assert forall|d: DisplayId, id: VirtualWorkspaceId| #[trigger]
            after.positions.contains_key((d, id)) implies after.owns(d, id) by {
            if !before.positions.contains_key((d, id)) {
                assert(before.active.contains_key(display));
            }
        }
    }
}

/// The position of a floating window is what was last stored of it while its workspace was shown;
/// the positions of other windows and in other workspaces stay.
pub proof fn stored_position_is_found(
    before: ManagerModel,
    display: DisplayId,
    id: VirtualWorkspaceId,
    window: WindowId,
    position: Frame,
)
    requires
        before.active_on(display) == Some(id),
    ensures
        ({
            let after = before.with_positions(display, seq![(window, position)]);
            &&& after.positions_in(display, id).get(window) == Some(position)
            &&& forall|w: WindowId|
                w != window ==> #[trigger] after.positions_in(display, id).get(w)
                    == before.positions_in(display, id).get(w)
            &&& forall|d: DisplayId, x: VirtualWorkspaceId|
                (d, x) != (display, id) ==> #[trigger] after.positions_in(d, x)
                    == before.positions_in(d, x)
        }),
{
    let stored = seq![(window, position)];
    let held = before.positions_in(display, id);
    assert(stored.drop_last() =~= Seq::<(WindowId, Frame)>::empty());
    reveal_with_fuel(crate::model::manager_model::overwritten, 2);
    assert(crate::model::manager_model::overwritten(held, stored) == held.insert(window, position));
}

/// Forgetting positions keeps the state consistent, and none of a forgotten window is left while
/// those of the others stay.
pub proof fn forgotten_positions_are_gone(before: ManagerModel, pred: spec_fn(WindowId) -> bool)
    requires
        before.wf(),
    ensures
        before.without_positions(pred).wf(),
        forall|d: DisplayId, id: VirtualWorkspaceId, w: WindowId| #[trigger]
            before.without_positions(pred).positions_in(d, id).get(w) == if pred(w) {
                None
            } else {
                before.positions_in(d, id).get(w)
            },
{
    let after = before.without_positions(pred);
    assert(after.displays_in_order());
    assert(after.active_in_order());
    assert(after.windows_in_order());
    assert(after.places_in_order()) by {
        assert forall|d: DisplayId, id: VirtualWorkspaceId| #[trigger]
            after.positions.contains_key((d, id)) implies after.owns(d, id) by {
            assert(before.positions.contains_key((d, id)));
        }
    }
}

/// Giving a workspace another name or another focused window keeps the state consistent.
pub proof fn renaming_and_focus_keep_consistency(
    before: ManagerModel,
    id: VirtualWorkspaceId,
    name: Seq<char>,
    focused: Option<WindowId>,
)
    requires
        before.wf(),
        before.workspaces.contains_key(id),
    ensures
        before.with_changed(
            id,
            WorkspaceModel { name, last_focused: focused, ..before.workspaces[id] },
        ).wf(),
{
    let after = before.with_changed(
        id,
        WorkspaceModel { name, last_focused: focused, ..before.workspaces[id] },
    );
    displays_stay_in_order(before, after);
    assert(after.active_in_order());
    assert(after.windows_in_order()) by {
        assert forall|x: VirtualWorkspaceId, w: WindowId|
            #![trigger after.workspaces[x].windows.contains(w)]
            after.workspaces.contains_key(x) && after.workspaces[x].windows.contains(w) implies {
            &&& after.assigned.contains_key((after.workspaces[x].display, w))
            &&& after.assigned[(after.workspaces[x].display, w)] == x
        } by {
            assert(before.workspaces[x].windows.contains(w));
        }
    }
    places_stay_in_order(before, after);
}

/// When the workspaces of all displays are counted through, each comes exactly once, under its
/// own display.
pub proof fn global_count_covers_every_workspace_once(model: ManagerModel, displays: Seq<DisplayId>)
    requires
        model.wf(),
        crate::model::manager_model::rising_displays(displays, model.by_display.dom()),
    ensures
        ({
            let all = crate::model::manager_model::global_listing(model, displays);
            &&& all.no_duplicates()
            &&& forall|d: DisplayId, id: VirtualWorkspaceId| #[trigger]
                all.contains((d, id)) <==> model.owns(d, id)
        }),
{
    global_count_of_some(model, displays);
    let all = crate::model::manager_model::global_listing(model, displays);
    assert forall|d: DisplayId, id: VirtualWorkspaceId| #[trigger]
        all.contains((d, id)) <==> model.owns(d, id) by {
        if model.owns(d, id) {
            assert(model.ids_on(d).contains(id));
            assert(displays.to_set().contains(d));
        }
    }
}

proof fn global_count_of_some(model: ManagerModel, displays: Seq<DisplayId>)
    requires
        model.wf(),
        forall|i: int, j: int| 0 <= i < j < displays.len() ==> displays[i] < displays[j],
    ensures
        ({
            let all = crate::model::manager_model::global_listing(model, displays);
            &&& all.no_duplicates()
            &&& forall|d: DisplayId, id: VirtualWorkspaceId| #[trigger]
                all.contains((d, id)) <==> displays.contains(d) && model.owns(d, id)
        }),
    decreases displays.len(),
{
    let all = crate::model::manager_model::global_listing(model, displays);
    if displays.len() > 0 {
        let front = displays.drop_last();
        let last = displays.last();
        global_count_of_some(model, front);
        listing_is_complete(model, last);
        let before = crate::model::manager_model::global_listing(model, front);
        let ids = model.ids_on(last);
        let here = model.listing(last).map_values(
            |e: (VirtualWorkspaceId, Seq<char>)| (last, e.0),
        );
        assert(here =~= ids.map_values(|id: VirtualWorkspaceId| (last, id)));
        assert(all == before + here);
        assert(!front.contains(last)) by {
            if front.contains(last) {
                let j = choose|j: int| 0 <= j < front.len() && front[j] == last;
                assert(displays[j] < displays[displays.len() - 1]);
            }
        }
        assert forall|d: DisplayId, id: VirtualWorkspaceId| #[trigger]
            all.contains((d, id)) <==> displays.contains(d) && model.owns(d, id) by {
            if all.contains((d, id)) {
                let k = choose|k: int| 0 <= k < all.len() && all[k] == (d, id);
                if k < before.len() {
                    assert(before[k] == (d, id));
                    assert(before.contains((d, id)));
                    let j = choose|j: int| 0 <= j < front.len() && front[j] == d;
                    assert(displays[j] == d);
                } else {
                    assert(here[k - before.len()] == (d, id));
                    assert(ids.contains(id));
                    assert(displays[displays.len() - 1] == d);
                }
            }
            if displays.contains(d) && model.owns(d, id) {
                let j = choose|j: int| 0 <= j < displays.len() && displays[j] == d;
                if j < front.len() {
                    assert(front[j] == d);
                    assert(before.contains((d, id)));
                    let k = choose|k: int| 0 <= k < before.len() && before[k] == (d, id);
                    assert(all[k] == (d, id));
                } else {
                    assert(ids.contains(id));
                    let k = choose|k: int| 0 <= k < ids.len() && ids[k] == id;
                    assert(here[k] == (d, id));
                    assert(all[before.len() + k] == (d, id));
                }
            }
        }
        assert forall|i: int, j: int| 0 <= i < j < all.len() implies all[i] != all[j] by {
            if j < before.len() {
                assert(before[i] != before[j]);
            } else if i < before.len() {
                assert(before.contains((all[i].0, all[i].1)));
                assert(all[i] == before[i]);
                assert(all[j] == here[j - before.len()]);
            } else {
                assert(all[i] == here[i - before.len()]);
                assert(all[j] == here[j - before.len()]);
                assert(ids[i - before.len()] != ids[j - before.len()]);
            }
        }
    }
}

/// There is one way only to put displays in rising order, so that each position in the count of
/// all workspaces has one workspace.
pub proof fn rising_order_is_unique(a: Seq<DisplayId>, b: Seq<DisplayId>, displays: Set<DisplayId>)
    requires
        crate::model::manager_model::rising_displays(a, displays),
        crate::model::manager_model::rising_displays(b, displays),
    ensures
        a == b,
    decreases a.len(),
{
    if a.len() == 0 {
        if b.len() > 0 {
            assert(b.to_set().contains(b[0]));
            assert(a.to_set().contains(b[0]));
        }
        assert(a =~= b);
    } else {
        let x = a.last();
        assert(a.to_set().contains(a[a.len() - 1]));
        assert(b.to_set().contains(x));
        let i = choose|i: int| 0 <= i < b.len() && b[i] == x;
        let y = b.last();
        assert(b.to_set().contains(b[b.len() - 1]));
        assert(a.to_set().contains(y));
        let j = choose|j: int| 0 <= j < a.len() && a[j] == y;
        assert(x == y) by {
            if i < b.len() - 1 {
                assert(b[i] < b[b.len() - 1]);
            }
            if j < a.len() - 1 {
                assert(a[j] < a[a.len() - 1]);
            }
        }
        lemma_rising_front(a, displays);
        lemma_rising_front(b, displays);
        rising_order_is_unique(a.drop_last(), b.drop_last(), displays.remove(x));
        assert(a =~= a.drop_last().push(x));
        assert(b =~= b.drop_last().push(y));
    }
}

proof fn lemma_rising_front(a: Seq<DisplayId>, displays: Set<DisplayId>)
    requires
        a.len() > 0,
        crate::model::manager_model::rising_displays(a, displays),
    ensures
        crate::model::manager_model::rising_displays(a.drop_last(), displays.remove(a.last())),
{
    let front = a.drop_last();
    assert forall|d: DisplayId| front.to_set().contains(d) <==> displays.remove(
        a.last(),
    ).contains(d) by {
        if front.to_set().contains(d) {
            let i = choose|i: int| 0 <= i < front.len() && front[i] == d;
            assert(a[i] == d);
            assert(a[i] < a[a.len() - 1]);
            assert(a.to_set().contains(d));
        }
        if displays.remove(a.last()).contains(d) {
            assert(a.to_set().contains(d));
            let i = choose|i: int| 0 <= i < a.len() && a[i] == d;
            assert(front[i] == d);
        }
    }
    assert(front.to_set() =~= displays.remove(a.last()));
}

/// A window is in at most one workspace of a display that is not shown; it is in one exactly when
/// it is assigned to such a workspace.
pub proof fn hidden_windows_are_those_of_other_workspaces(
    model: ManagerModel,
    display: DisplayId,
    window: WindowId,
)
    requires
        model.wf(),
    ensures
        model.hidden_with(display, window) == match model.assigned.get((display, window)) {
            Some(id) if Some(id) != model.active_on(display) => set![id],
            _ => Set::empty(),
        },
{
    let hidden = model.hidden_with(display, window);
    let expected = match model.assigned.get((display, window)) {
        Some(id) if Some(id) != model.active_on(display) => set![id],
        _ => Set::empty(),
    };
    assert forall|id: VirtualWorkspaceId| hidden.contains(id) <==> expected.contains(id) by {
        if hidden.contains(id) {
            assert(model.workspaces[id].windows.contains(window));
        }
        if expected.contains(id) {
            assert(model.assigned.contains_key((display, window)));
            assert(model.owns(display, id));
        }
    }
    assert(hidden =~= expected);
}

/// A renamed workspace is listed in its place under its new name, and the others as before.
pub proof fn renamed_workspace_is_listed_in_its_place(
    before: ManagerModel,
    display: DisplayId,
    id: VirtualWorkspaceId,
    name: Seq<char>,
)
    requires
        before.wf(),
        before.owns(display, id),
    ensures
        ({
            let after = before.with_changed(
                id,
                WorkspaceModel { name, ..before.workspaces[id] },
            );
            &&& after.listing(display) == before.listing(display).map_values(
                |e: (VirtualWorkspaceId, Seq<char>)|
                    if e.0 == id {
                        (id, name)
                    } else {
                        e
                    },
            )
            &&& after.listing(display).contains((id, name))
        }),
{
    let after = before.with_changed(id, WorkspaceModel { name, ..before.workspaces[id] });
    renaming_and_focus_keep_consistency(before, id, name, before.workspaces[id].last_focused);
    assert(after == before.with_changed(
        id,
        WorkspaceModel {
            name,
            last_focused: before.workspaces[id].last_focused,
            ..before.workspaces[id]
        },
    ));
    listing_is_complete(before, display);
    listing_is_complete(after, display);
    let renamed = before.listing(display).map_values(
        |e: (VirtualWorkspaceId, Seq<char>)|
            if e.0 == id {
                (id, name)
            } else {
                e
            },
    );
    assert(after.ids_on(display) == before.ids_on(display));
    assert(after.listing(display) =~= renamed);
    let ids = before.ids_on(display);
    assert(ids.contains(id));
    let i = choose|i: int| 0 <= i < ids.len() && ids[i] == id;
    assert(after.listing(display)[i] == (id, name));
}

/// The number of windows of some workspaces together.
pub open spec fn windows_in_all(model: ManagerModel, ids: Seq<VirtualWorkspaceId>) -> nat
    decreases ids.len(),
{
    if ids.len() == 0 {
        0
    } else {
        windows_in_all(model, ids.drop_last()) + model.workspaces[ids.last()].windows.len()
    }
}

/// The assignments to some workspaces.
spec fn assignments_to(model: ManagerModel, ids: Seq<VirtualWorkspaceId>) -> Set<
    (DisplayId, WindowId),
> {
    model.assigned.dom().filter(|k: (DisplayId, WindowId)| ids.contains(model.assigned[k]))
}

/// The windows of all workspaces together are as many as there are windows with a workspace.
pub proof fn windows_are_counted_once(model: ManagerModel, ids: Seq<VirtualWorkspaceId>)
    requires
        model.wf(),
        model.assigned.dom().finite(),
        crate::common::sequences::enumerates(ids, model.workspaces.dom()),
    ensures
        windows_in_all(model, ids) == model.assigned.len(),
{
    windows_of_some_are_counted(model, ids);
    assert(assignments_to(model, ids) =~= model.assigned.dom()) by {
        assert forall|k: (DisplayId, WindowId)| model.assigned.dom().contains(
            k,
        ) implies assignments_to(model, ids).contains(k) by {
            assert(model.assigned.contains_key((k.0, k.1)));
            assert(ids.to_set().contains(model.assigned[k]));
        }
    }
}

proof fn windows_of_some_are_counted(model: ManagerModel, ids: Seq<VirtualWorkspaceId>)
    requires
        model.wf(),
        model.assigned.dom().finite(),
        ids.no_duplicates(),
        forall|i: int| 0 <= i < ids.len() ==> model.workspaces.contains_key(#[trigger] ids[i]),
    ensures
        windows_in_all(model, ids) == assignments_to(model, ids).len(),
    decreases ids.len(),
{
    if ids.len() == 0 {
        assert(assignments_to(model, ids) =~= Set::<(DisplayId, WindowId)>::empty());
    } else {
        let front = ids.drop_last();
        let id = ids.last();
        windows_of_some_are_counted(model, front);
        let d = model.workspaces[id].display;
        let earlier = assignments_to(model, front);
        let here = model.assigned.dom().filter(
            |k: (DisplayId, WindowId)| model.assigned[k] == id,
        );
        assert(model.workspaces.contains_key(ids[ids.len() - 1]));
        assert forall|k: (DisplayId, WindowId)| assignments_to(model, ids).contains(k)
            <==> earlier.contains(k) || here.contains(k) by {
            if front.contains(model.assigned[k]) {
                let j = choose|j: int| 0 <= j < front.len() && front[j] == model.assigned[k];
                assert(ids[j] == model.assigned[k]);
            }
            if ids.contains(model.assigned[k]) {
                let j = choose|j: int| 0 <= j < ids.len() && ids[j] == model.assigned[k];
                if j < front.len() {
                    assert(front[j] == model.assigned[k]);
                }
            }
            assert(ids[ids.len() - 1] == id);
        }
        assert(assignments_to(model, ids) =~= earlier.union(here));
        assert(earlier.disjoint(here)) by {
            assert forall|k: (DisplayId, WindowId)| !(earlier.contains(k) && here.contains(k)) by {
                if earlier.contains(k) && here.contains(k) {
                    let j = choose|j: int| 0 <= j < front.len() && front[j] == id;
                    assert(ids[j] == ids[ids.len() - 1]);
                }
            }
        }
        let back = |k: (DisplayId, WindowId)| k.1;
        let windows = model.workspaces[id].windows;
        assert(windows =~= here.map(back)) by {
            assert forall|w: WindowId| windows.contains(w) <==> here.map(back).contains(w) by {
                if windows.contains(w) {
                    assert(model.workspaces[id].windows.contains(w));
                    assert(here.contains((d, w)));
                    assert(back((d, w)) == w);
                }
                if here.map(back).contains(w) {
                    let k = choose|k: (DisplayId, WindowId)| here.contains(k) && back(k) == w;
                    assert(model.assigned.contains_key((k.0, k.1)));
                }
            }
        }
        assert forall|a: (DisplayId, WindowId), b: (DisplayId, WindowId)| #![trigger back(a), back(b)]
            here.contains(a) && here.contains(b) && back(a) == back(b) implies a == b by {
            assert(model.assigned.contains_key((a.0, a.1)));
            assert(model.assigned.contains_key((b.0, b.1)));
        }
        vstd::set_lib::lemma_map_size(here, windows, back);
        vstd::set_lib::lemma_set_disjoint_lens(earlier, here);
    }
}

} // verus!

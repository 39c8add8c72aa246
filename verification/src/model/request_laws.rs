//! What each request to the manager changes, in terms of what the manager holds, and what it leaves
//! as it is.
use vstd::prelude::*;
use crate::common::config::{AppWorkspaceRule, VirtualWorkspaceSettings, WorkspaceDefinition};
use crate::model::geometry::Frame;
use crate::model::ids::{DisplayId, SpaceId, VirtualWorkspaceId, WindowId};
use crate::model::manager_model::{Direction, ManagerModel, ManagerSettings};
use crate::model::workspace::{WorkspaceError, WorkspaceModel};

verus! {

/// A workspace that exists is one of the display that it was made for, and of no other; one that
/// does not exist is of none.
pub proof fn workspace_has_one_display(
    model: ManagerModel,
    id: VirtualWorkspaceId,
    d: DisplayId,
)
    ensures
        model.workspaces.contains_key(id) ==> (model.owns(d, id) <==> d
            == model.workspaces[id].display),
        !model.workspaces.contains_key(id) ==> !model.owns(d, id),
{
}

/// What a display shows and showed before, and the workspaces that it has, are what is on record for
/// it, and nothing where nothing is.
pub proof fn records_of_a_display(model: ManagerModel, d: DisplayId)
    ensures
        model.active.contains_key(d) ==> {
            &&& model.active_on(d) == Some(model.active[d].1)
            &&& model.last_on(d) == model.active[d].0
        },
        !model.active.contains_key(d) ==> model.active_on(d) is None && model.last_on(d) is None,
        model.by_display.contains_key(d) ==> model.ids_on(d) == model.by_display[d],
        !model.by_display.contains_key(d) ==> model.ids_on(d).len() == 0,
{
}

/// A new manager has no display in use, no workspace, no window, no space and no position, and
/// counts from one. It keeps the settings that it is made with, and a limit of its own.
pub proof fn new_manager_is_empty(settings: ManagerSettings, config: VirtualWorkspaceSettings)
    ensures
        ({
            let model = ManagerModel::empty(settings);
            &&& model.workspaces.dom() == Set::<VirtualWorkspaceId>::empty()
            &&& model.by_display.dom() == Set::<DisplayId>::empty()
            &&& model.active.dom() == Set::<DisplayId>::empty()
            &&& model.assigned.dom() == Set::<(DisplayId, WindowId)>::empty()
            &&& model.display_spaces.dom() == Set::<DisplayId>::empty()
            &&& model.rule_floating.dom() == Set::<(DisplayId, WindowId)>::empty()
            &&& model.positions.dom() == Set::<(DisplayId, VirtualWorkspaceId)>::empty()
            &&& model.counter == 1
            &&& model.settings == settings
        }),
        ({
            let kept = crate::model::virtual_workspace::settings_of(config);
            &&& kept.app_rules == config.app_rules@
            &&& kept.max_workspaces == 32
            &&& kept.default_workspace_count == config.default_workspace_count
            &&& kept.default_workspace_names.len() == config.workspace_names@.len()
            &&& forall|i: int|
                0 <= i < config.workspace_names@.len() ==> kept.default_workspace_names[i] == (
                #[trigger] config.workspace_names@[i])@
            &&& kept.auto_back_and_forth == config.workspace_auto_back_and_forth
            &&& kept.definitions == config.workspaces@
        }),
{
}

/// Without settings of its own a manager starts each display with four numbered workspaces, allows
/// thirty-two, and does not go back and forth; the rules are those that it is given.
pub proof fn default_settings_are_plain(rules: Seq<AppWorkspaceRule>, display: DisplayId)
    ensures
        ({
            let kept = crate::model::virtual_workspace::default_settings(rules);
            &&& kept.app_rules == rules
            &&& kept.max_workspaces == 32
            &&& !kept.auto_back_and_forth
            &&& kept.planned_names(display).len() == 4
            &&& forall|i: int|
                0 <= i < 4 ==> #[trigger] kept.planned_names(display)[i] == "Workspace "@
                    + crate::common::text::decimal((i + 1) as nat)
        }),
{
}

/// Without definitions a display starts with the default number of workspaces, at least one and at
/// most the limit. They are named from the list of names, and with their numbers where it ends.
pub proof fn display_starts_with_the_default_workspaces(
    settings: ManagerSettings,
    display: DisplayId,
    i: int,
)
    requires
        settings.definitions.len() == 0,
    ensures
        ({
            let n = settings.planned_names(display).len();
            &&& n <= settings.max_workspaces
            &&& settings.max_workspaces > 0 ==> n > 0
            &&& n <= settings.default_workspace_count || n == 1
            &&& n == settings.default_workspace_count || n == settings.max_workspaces || (n == 1
                && settings.default_workspace_count == 0)
        }),
        0 <= i < settings.planned_names(display).len() ==> settings.planned_names(display)[i] == if i
            < settings.default_workspace_names.len() {
            settings.default_workspace_names[i]
        } else {
            "Workspace "@ + crate::common::text::decimal((i + 1) as nat)
        },
{
}

/// Where there are definitions, a display starts with the workspaces that are defined for it or for
/// all displays, in the order of the definitions and as many as the limit allows; with a single
/// numbered one when none is. The result tells which definition each of the workspaces comes from.
pub proof fn display_starts_with_its_defined_workspaces(
    settings: ManagerSettings,
    display: DisplayId,
) -> (at: Seq<int>)
    requires
        settings.definitions.len() > 0,
        settings.max_workspaces >= 1,
    ensures
        ({
            let names = settings.planned_names(display);
            let defined = settings.definitions;
            if forall|k: int|
                0 <= k < defined.len() ==> (#[trigger] defined[k]).display is Some
                    && defined[k].display != Some(display) {
                names == seq!["Workspace "@ + crate::common::text::decimal(1)]
            } else {
                &&& names.len() == at.len() || names.len() == settings.max_workspaces
                &&& names.len() <= at.len()
                &&& names.len() <= settings.max_workspaces
                &&& forall|i: int, j: int| 0 <= i < j < at.len() ==> (#[trigger] at[i]) < (
                #[trigger] at[j])
                &&& forall|i: int|
                    0 <= i < names.len() ==> {
                        &&& 0 <= #[trigger] at[i] < defined.len()
                        &&& names[i] == defined[at[i]].name@
                        &&& defined[at[i]].display is None || defined[at[i]].display == Some(display)
                    }
                &&& forall|k: int|
                    0 <= k < defined.len() && ((#[trigger] defined[k]).display is None
                        || defined[k].display == Some(display)) ==> at.contains(k)
            }
        }),
{
    let defined = settings.definitions;
    let here = |d: WorkspaceDefinition| crate::model::manager_model::defined_on(d, display);
    let at = crate::common::sequences::filter_keeps_order(defined, here);
    let wanted = settings.definitions_on(display);
    assert(wanted == defined.filter(here));
    if forall|k: int|
        0 <= k < defined.len() ==> (#[trigger] defined[k]).display is Some && defined[k].display
            != Some(display) {
        if wanted.len() > 0 {
            assert(here(defined[at[0]]));
        }
    } else {
        let k = choose|k: int|
            0 <= k < defined.len() && !((#[trigger] defined[k]).display is Some && defined[k].display
                != Some(display));
        assert(here(defined[k]));
        assert(at.contains(k));
        assert(wanted.len() > 0);
    }
    at
}

/// Putting a display in use makes its workspaces and nothing else: each is new, empty and without a
/// space, has the name that is planned for its place, and is one of the display, which shows the
/// first of them and showed none before. What there was stays as it is. A display that is in use
/// stays as it is.
pub proof fn initialization_makes_the_planned_workspaces(
    before: ManagerModel,
    after: ManagerModel,
    display: DisplayId,
)
    requires
        before.initializes(after, display),
    ensures
        before.by_display.contains_key(display) ==> after == before,
        !before.by_display.contains_key(display) ==> {
            let ids = after.by_display[display];
            let names = before.settings.planned_names(display);
            &&& after.by_display.dom() == before.by_display.dom().insert(display)
            &&& ids.len() == names.len()
            &&& ids.no_duplicates()
            &&& forall|i: int|
                0 <= i < ids.len() ==> {
                    let made = #[trigger] ids[i];
                    &&& !before.workspaces.contains_key(made)
                    &&& after.workspaces.contains_key(made)
                    &&& after.workspaces[made].name == names[i]
                    &&& after.workspaces[made].display == display
                    &&& after.workspaces[made].space is None
                    &&& after.workspaces[made].windows == Set::<WindowId>::empty()
                    &&& after.workspaces[made].last_focused is None
                }
            &&& ids.len() > 0 ==> after.active.contains_key(display) && after.active[display] == (
                None::<VirtualWorkspaceId>,
                ids[0],
            )
            &&& ids.len() == 0 ==> after.active == before.active
            &&& forall|id: VirtualWorkspaceId| #[trigger]
                after.workspaces.contains_key(id) <==> before.workspaces.contains_key(id)
                    || ids.contains(id)
        },
        forall|id: VirtualWorkspaceId| #[trigger]
            before.workspaces.contains_key(id) ==> after.workspaces.contains_key(id)
                && after.workspaces[id] == before.workspaces[id],
        forall|d: DisplayId|
            d != display ==> {
                &&& (#[trigger] after.by_display.contains_key(d) <==> before.by_display.contains_key(
                    d,
                ))
                &&& after.by_display.contains_key(d) ==> after.by_display[d] == before.by_display[d]
                &&& after.active.get(d) == before.active.get(d)
            },
        after.assigned == before.assigned,
        after.display_spaces == before.display_spaces,
        after.rule_floating == before.rule_floating,
        after.positions == before.positions,
        after.counter == before.counter,
        after.settings == before.settings,
{
    if !before.by_display.contains_key(display) {
        let ids = after.by_display[display];
        assert(after.ids_on(display) == ids);
        assert(after.by_display.dom() =~= before.by_display.dom().insert(display));
        assert forall|id: VirtualWorkspaceId| #[trigger]
            after.workspaces.contains_key(id) <==> before.workspaces.contains_key(id)
            || ids.contains(id) by {
            assert(ids.to_set().contains(id) <==> ids.contains(id));
            assert(after.workspaces.dom().contains(id) <==> before.workspaces.dom().union(
                ids.to_set(),
            ).contains(id));
        }
        assert forall|i: int| 0 <= i < ids.len() implies after.workspaces.contains_key(
            #[trigger] ids[i],
        ) by {
            assert(ids.contains(ids[i]));
        }
    }
}

/// A workspace can be added to a display in use exactly while it has fewer than the limit; refused,
/// the request changes nothing and the limit and the display are named. The new workspace comes last
/// on its display, has the name that was asked for or else the next number, which is used up then,
/// knows the space of the display, and is empty. Nothing else changes, nor what any display shows.
pub proof fn created_workspace_is_new(
    before: ManagerModel,
    after: ManagerModel,
    display: DisplayId,
    name: Option<Seq<char>>,
    result: Result<VirtualWorkspaceId, WorkspaceError>,
)
    requires
        before.by_display.contains_key(display),
        name is None ==> before.counter < usize::MAX,
        before.creates(after, display, name, result),
    ensures
        result is Ok <==> before.by_display[display].len() < before.settings.max_workspaces,
        result matches Err(e) ==> {
            &&& after == before
            &&& e matches WorkspaceError::InconsistentState(text)
            &&& text@ == "Maximum workspace limit ("@ + crate::common::text::decimal(
                before.settings.max_workspaces as nat,
            ) + ") reached for display "@ + crate::common::text::decimal(display as nat)
        },
        result matches Ok(id) ==> {
            &&& !before.workspaces.contains_key(id)
            &&& after.workspaces.dom() == before.workspaces.dom().insert(id)
            &&& after.workspaces[id].name == match name {
                Some(n) => n,
                None => "Workspace "@ + crate::common::text::decimal(before.counter as nat),
            }
            &&& after.workspaces[id].display == display
            &&& after.workspaces[id].space == before.display_spaces.get(display)
            &&& after.workspaces[id].windows == Set::<WindowId>::empty()
            &&& after.workspaces[id].last_focused is None
            &&& forall|x: VirtualWorkspaceId| #[trigger]
                before.workspaces.contains_key(x) ==> after.workspaces[x] == before.workspaces[x]
            &&& after.by_display[display] == before.by_display[display].push(id)
            &&& after.by_display.dom() == before.by_display.dom()
            &&& forall|d: DisplayId|
                d != display && #[trigger] before.by_display.contains_key(d) ==> after.by_display[d]
                    == before.by_display[d]
            &&& after.counter == before.counter + if name is None {
                1int
            } else {
                0int
            }
        },
        after.active == before.active,
        after.assigned == before.assigned,
        after.display_spaces == before.display_spaces,
        after.rule_floating == before.rule_floating,
        after.positions == before.positions,
        after.settings == before.settings,
{
    let ready = choose|ready: ManagerModel| #[trigger]
        before.initializes(ready, display) && ready.adds(after, display, name, result);
    if let Ok(id) = result {
        assert(after.workspaces.dom() =~= before.workspaces.dom().insert(id));
        assert(after.by_display.dom() =~= before.by_display.dom());
    }
}

/// Recording the space of a display puts it on record for the display and for each workspace that
/// the display lists, and changes nothing else: not the space of another display or of a workspace
/// elsewhere, nor anything but the space of a workspace.
pub proof fn recorded_space_is_of_one_display(
    before: ManagerModel,
    display: DisplayId,
    space: SpaceId,
)
    requires
        before.wf(),
    ensures
        ({
            let after = before.with_space(display, space);
            &&& after.display_spaces.contains_key(display)
            &&& after.display_spaces[display] == space
            &&& forall|d: DisplayId|
                d != display ==> #[trigger] after.display_spaces.get(d)
                    == before.display_spaces.get(d)
            &&& after.workspaces.dom() == before.workspaces.dom()
            &&& forall|id: VirtualWorkspaceId| #[trigger]
                before.workspaces.contains_key(id) ==> {
                    &&& after.workspaces[id].space == if before.workspaces[id].display == display {
                        Some(space)
                    } else {
                        before.workspaces[id].space
                    }
                    &&& after.workspaces[id].name == before.workspaces[id].name
                    &&& after.workspaces[id].display == before.workspaces[id].display
                    &&& after.workspaces[id].windows == before.workspaces[id].windows
                    &&& after.workspaces[id].last_focused == before.workspaces[id].last_focused
                }
            &&& after.by_display == before.by_display
            &&& after.active == before.active
            &&& after.assigned == before.assigned
            &&& after.rule_floating == before.rule_floating
            &&& after.positions == before.positions
            &&& after.counter == before.counter
            &&& after.settings == before.settings
        }),
{
    let after = before.with_space(display, space);
    crate::model::laws::listing_is_complete(before, display);
    assert(after.workspaces.dom() =~= before.workspaces.dom());
    assert forall|id: VirtualWorkspaceId| #[trigger]
        before.workspaces.contains_key(id) implies before.ids_on(display).contains(id)
        == (before.workspaces[id].display == display) by {
        assert(before.ids_on(display).contains(id) <==> before.owns(display, id));
    }
}

/// Switching a display to a workspace puts the two on record, the one that it shows now and the one
/// that it showed, and changes nothing else, least of all what another display shows.
pub proof fn switch_changes_one_display(
    before: ManagerModel,
    display: DisplayId,
    id: VirtualWorkspaceId,
)
    ensures
        ({
            let after = before.activated(display, id);
            &&& after.active.contains_key(display)
            &&& after.active[display].1 == id
            &&& after.active[display].0 == if before.active.contains_key(display) {
                Some(before.active[display].1)
            } else {
                None
            }
            &&& forall|d: DisplayId|
                d != display ==> #[trigger] after.active.get(d) == before.active.get(d)
            &&& after == ManagerModel { active: after.active, ..before }
        }),
{
}

/// Putting a window into a workspace of a display changes the window's place and nothing else. The
/// workspace that it comes from loses it, and the focus with it if it had that; a rule that let it
/// float there no longer does. The displays, what they show, the names, spaces and focused windows
/// of the workspaces and the positions stay.
pub proof fn move_changes_one_window(
    before: ManagerModel,
    after: ManagerModel,
    display: DisplayId,
    window: WindowId,
    id: VirtualWorkspaceId,
)
    requires
        before.wf(),
        before.workspaces.contains_key(id),
        before.workspaces[id].display == display,
        before.assigns(after, display, window, id),
    ensures
        after.workspaces.dom() == before.workspaces.dom(),
        forall|x: VirtualWorkspaceId| #[trigger]
            before.workspaces.contains_key(x) ==> {
                &&& after.workspaces[x].name == before.workspaces[x].name
                &&& after.workspaces[x].display == before.workspaces[x].display
                &&& after.workspaces[x].space == before.workspaces[x].space
                &&& after.workspaces[x].windows == if x == id {
                    before.workspaces[x].windows.insert(window)
                } else {
                    before.workspaces[x].windows.remove(window)
                }
                &&& after.workspaces[x].last_focused == if before.workspaces[x].last_focused == Some(
                    window,
                ) && before.workspaces[x].windows.contains(window) {
                    None
                } else {
                    before.workspaces[x].last_focused
                }
            },
        after.assigned.contains_key((display, window)),
        after.assigned[(display, window)] == id,
        forall|d: DisplayId|
            d != display ==> !#[trigger] after.assigned.contains_key((d, window)),
        forall|d: DisplayId, w: WindowId|
            w != window ==> #[trigger] after.assigned.get((d, w)) == before.assigned.get((d, w)),
        forall|d: DisplayId| !#[trigger] after.rule_floating.contains_key((d, window)),
        forall|d: DisplayId, w: WindowId|
            w != window ==> #[trigger] after.rule_floating.get((d, w)) == before.rule_floating.get(
                (d, w),
            ),
        after.by_display == before.by_display,
        after.active == before.active,
        after.display_spaces == before.display_spaces,
        after.positions == before.positions,
        after.counter == before.counter,
        after.settings == before.settings,
{
    crate::model::laws::assigned_window_is_found(before, after, display, window, id);
    let mid = crate::model::laws::cleared_for(before, after, display, window, id);
    let pred = |w: WindowId| w == window;
    let gone = before.assignments_of(pred);
    removal_changes_some_windows(before, pred);
    assert(after.workspaces.dom() =~= before.workspaces.dom());
    assert forall|x: VirtualWorkspaceId| #[trigger]
        before.workspaces.contains_key(x) implies after.workspaces[x].windows == (if x == id {
        before.workspaces[x].windows.insert(window)
    } else {
        before.workspaces[x].windows.remove(window)
    }) && mid.workspaces[x].last_focused == after.workspaces[x].last_focused by {
        assert(mid.workspaces.contains_key(x));
        assert forall|w: WindowId| after.workspaces[x].windows.contains(w) <==> (if x == id {
            before.workspaces[x].windows.insert(window)
        } else {
            before.workspaces[x].windows.remove(window)
        }).contains(w) by {
            if w == window {
                assert(after.workspaces[x].windows.contains(window) <==> x == id);
            } else {
                assert(after.workspaces[x].windows.contains(w)
                    <==> before.workspaces[x].windows.contains(w));
            }
        }
        assert(after.workspaces[x].windows =~= if x == id {
            before.workspaces[x].windows.insert(window)
        } else {
            before.workspaces[x].windows.remove(window)
        });
    }
    assert forall|d: DisplayId| !#[trigger] after.rule_floating.contains_key((d, window)) by {
        assert(pred(window));
        assert(!mid.rule_floating.contains_key((d, window)));
    }
    assert forall|d: DisplayId, w: WindowId| w != window implies #[trigger] after.rule_floating.get(
        (d, w),
    ) == before.rule_floating.get((d, w)) by {
        assert(!pred(w));
        assert(mid.rule_floating.get((d, w)) == before.rule_floating.get((d, w)));
    }
    assert forall|d: DisplayId| d != display implies !#[trigger] after.assigned.contains_key(
        (d, window),
    ) by {
        if after.assigned.contains_key((d, window)) {
            assert(d == display);
        }
    }
}

/// Taking some windows out of their workspaces changes nothing of the others, of the displays or of
/// the positions. A workspace loses those windows, and the focus with one that had it.
pub proof fn removal_changes_some_windows(before: ManagerModel, pred: spec_fn(WindowId) -> bool)
    requires
        before.wf(),
    ensures
        ({
            let after = before.evicted(before.assignments_of(pred));
            &&& after.workspaces.dom() == before.workspaces.dom()
            &&& forall|x: VirtualWorkspaceId| #[trigger]
                before.workspaces.contains_key(x) ==> {
                    &&& after.workspaces[x].name == before.workspaces[x].name
                    &&& after.workspaces[x].display == before.workspaces[x].display
                    &&& after.workspaces[x].space == before.workspaces[x].space
                    &&& after.workspaces[x].windows == before.workspaces[x].windows.filter(
                        |w: WindowId| !pred(w),
                    )
                    &&& after.workspaces[x].last_focused == match before.workspaces[x].last_focused {
                        Some(w) if pred(w) && before.workspaces[x].windows.contains(w) => None,
                        other => other,
                    }
                }
            &&& forall|d: DisplayId, w: WindowId|
                pred(w) ==> !#[trigger] after.assigned.contains_key((d, w))
            &&& forall|d: DisplayId, w: WindowId|
                !pred(w) ==> #[trigger] after.assigned.get((d, w)) == before.assigned.get((d, w))
            &&& forall|d: DisplayId, w: WindowId|
                pred(w) ==> !#[trigger] after.rule_floating.contains_key((d, w))
            &&& forall|d: DisplayId, w: WindowId|
                !pred(w) ==> #[trigger] after.rule_floating.get((d, w))
                    == before.rule_floating.get((d, w))
            &&& after.by_display == before.by_display
            &&& after.active == before.active
            &&& after.display_spaces == before.display_spaces
            &&& after.positions == before.positions
            &&& after.counter == before.counter
            &&& after.settings == before.settings
        }),
{
    let gone = before.assignments_of(pred);
    let after = before.evicted(gone);
    crate::model::laws::removed_windows_are_nowhere(before, pred);
    assert(after.workspaces.dom() =~= before.workspaces.dom());
    assert forall|x: VirtualWorkspaceId| #[trigger]
        before.workspaces.contains_key(x) implies after.workspaces[x].windows
        == before.workspaces[x].windows.filter(|w: WindowId| !pred(w))
        && after.workspaces[x].last_focused == (match before.workspaces[x].last_focused {
        Some(w) if pred(w) && before.workspaces[x].windows.contains(w) => None,
        other => other,
    }) by {
        assert forall|w: WindowId| after.workspaces[x].windows.contains(w)
            <==> before.workspaces[x].windows.filter(|w: WindowId| !pred(w)).contains(w) by {
            assert(after.workspaces[x].windows.contains(w)
                <==> before.workspaces[x].windows.contains(w) && !pred(w));
        }
        assert(after.workspaces[x].windows =~= before.workspaces[x].windows.filter(
            |w: WindowId| !pred(w),
        ));
        let left = before.leaving(gone, x);
        assert forall|w: WindowId| #[trigger] left.contains(w) <==> pred(w)
            && before.workspaces[x].windows.contains(w) by {
            if left.contains(w) {
                let d = choose|d: DisplayId| #[trigger]
                    gone.contains((d, w)) && before.assigned[(d, w)] == x;
                assert(before.assigned.contains_key((d, w)));
                assert(before.workspaces[before.assigned[(d, w)]].windows.contains(w));
            }
            if pred(w) && before.workspaces[x].windows.contains(w) {
                let d = before.workspaces[x].display;
                assert(before.assigned.contains_key((d, w)));
                assert(gone.contains((d, w)));
            }
        }
    }
    assert forall|d: DisplayId, w: WindowId| pred(w) implies !#[trigger] after.assigned.contains_key(
        (d, w),
    ) by {
        if after.assigned.contains_key((d, w)) {
            assert(after.is_assigned(w));
        }
    }
    assert forall|d: DisplayId, w: WindowId| !pred(w) implies #[trigger] after.assigned.get((d, w))
        == before.assigned.get((d, w)) by {
        assert(before.assigned.get((d, w)) == after.assigned.get((d, w)));
    }
}

/// The place that is `n` places away from place `i` of `len` in a ring, to the right or down counting
/// up and to the left or up counting down.
pub open spec fn around(direction: Direction, i: int, n: int, len: int) -> int {
    match direction {
        Direction::Right | Direction::Down => if i + n < len {
            i + n
        } else {
            i + n - len
        },
        Direction::Left | Direction::Up => if i - n >= 0 {
            i - n
        } else {
            i - n + len
        },
    }
}

proof fn lemma_reach_is_around(direction: Direction, i: int, n: int, len: int)
    requires
        0 <= i < len,
        1 <= n <= len,
    ensures
        direction.reach(i, n, len) == around(direction, i, n, len),
        0 <= around(direction, i, n, len) < len,
{
    if i + n < len {
        vstd::arithmetic::div_mod::lemma_small_mod((i + n) as nat, len as nat);
    } else {
        vstd::arithmetic::div_mod::lemma_small_mod((i + n - len) as nat, len as nat);
        vstd::arithmetic::div_mod::lemma_mod_add_multiples_vanish(i + n - len, len);
    }
    if i - n >= 0 {
        vstd::arithmetic::div_mod::lemma_small_mod((i - n) as nat, len as nat);
    } else {
        vstd::arithmetic::div_mod::lemma_small_mod((i - n + len) as nat, len as nat);
        vstd::arithmetic::div_mod::lemma_mod_add_multiples_vanish(i - n, len);
    }
}

/// From the workspace at a place of a display, a step that skips nothing leads to the neighbouring
/// place in the direction, the last place and the first being neighbours. A step that skips empty
/// workspaces leads to the nearest workspace with windows in the direction, which is the same one
/// again when no other has any; it leads nowhere exactly when no workspace of the display has
/// windows. From a workspace that is not one of the display no step leads anywhere.
pub proof fn step_leads_to_the_nearest(
    model: ManagerModel,
    display: DisplayId,
    current: VirtualWorkspaceId,
    skip_empty: Option<bool>,
    direction: Direction,
    found: Option<VirtualWorkspaceId>,
)
    requires
        model.wf(),
        model.by_display.contains_key(display),
        model.steps_to(display, current, skip_empty, direction, found),
    ensures
        !model.by_display[display].contains(current) ==> found is None,
        forall|i: int|
            #![trigger model.by_display[display][i]]
            0 <= i < model.by_display[display].len() && model.by_display[display][i] == current ==> {
                let ids = model.by_display[display];
                let len = ids.len() as int;
                if skip_empty == Some(true) {
                    &&& found is None <==> forall|k: int|
                        0 <= k < len ==> (#[trigger] model.workspaces[ids[k]]).windows == Set::<
                            WindowId,
                        >::empty()
                    &&& found matches Some(id) ==> exists|n: int|
                        {
                            &&& 1 <= n <= len
                            &&& id == ids[#[trigger] around(direction, i, n, len)]
                            &&& model.workspaces[id].windows != Set::<WindowId>::empty()
                            &&& forall|m: int|
                                1 <= m < n ==> model.workspaces[ids[#[trigger] around(
                                    direction,
                                    i,
                                    m,
                                    len,
                                )]].windows == Set::<WindowId>::empty()
                        }
                } else {
                    found == Some(ids[around(direction, i, 1, len)])
                }
            },
{
    let ids = model.by_display[display];
    let len = ids.len() as int;
    crate::model::laws::listing_is_complete(model, display);
    let offered = |id: VirtualWorkspaceId| model.offered(id, skip_empty);
    let existing = |id: VirtualWorkspaceId| model.offered(id, Some(false));
    assert forall|k: int| 0 <= k < len implies existing(#[trigger] ids[k]) by {
        assert(model.owns(display, model.by_display[display][k]));
    }
    crate::model::laws::lemma_filter_all(ids, existing);
    let ring = model.ring(display, skip_empty);
    crate::common::sequences::lemma_filter_contains(ids, offered, current);
    ring.index_of_first_ensures(current);
    ids.index_of_first_ensures(current);
    assert forall|i: int|
        #![trigger model.by_display[display][i]]
        0 <= i < len && model.by_display[display][i] == current implies {
        if skip_empty == Some(true) {
            &&& found is None <==> forall|k: int|
                0 <= k < len ==> (#[trigger] model.workspaces[ids[k]]).windows == Set::<
                    WindowId,
                >::empty()
            &&& found matches Some(id) ==> exists|n: int|
                {
                    &&& 1 <= n <= len
                    &&& id == ids[#[trigger] around(direction, i, n, len)]
                    &&& model.workspaces[id].windows != Set::<WindowId>::empty()
                    &&& forall|m: int|
                        1 <= m < n ==> model.workspaces[ids[#[trigger] around(
                            direction,
                            i,
                            m,
                            len,
                        )]].windows == Set::<WindowId>::empty()
                }
        } else {
            found == Some(ids[around(direction, i, 1, len)])
        }
    } by {
        assert(ids.index_of_first(current) == Some(i));
        assert(ids.contains(current));
        if skip_empty == Some(true) {
            skipping_step_leads_to_the_nearest(model, display, current, direction, found, i);
        } else {
            lemma_reach_is_around(direction, i, 1, len);
        }
    }
}

proof fn skipping_step_leads_to_the_nearest(
    model: ManagerModel,
    display: DisplayId,
    current: VirtualWorkspaceId,
    direction: Direction,
    found: Option<VirtualWorkspaceId>,
    i: int,
)
    requires
        model.wf(),
        model.by_display.contains_key(display),
        model.steps_to(display, current, Some(true), direction, found),
        0 <= i < model.by_display[display].len(),
        model.by_display[display][i] == current,
    ensures
        ({
            let ids = model.by_display[display];
            let len = ids.len() as int;
            &&& found is None <==> forall|k: int|
                0 <= k < len ==> (#[trigger] model.workspaces[ids[k]]).windows == Set::<
                    WindowId,
                >::empty()
            &&& found matches Some(id) ==> exists|n: int|
                {
                    &&& 1 <= n <= len
                    &&& id == ids[#[trigger] around(direction, i, n, len)]
                    &&& model.workspaces[id].windows != Set::<WindowId>::empty()
                    &&& forall|m: int|
                        1 <= m < n ==> model.workspaces[ids[#[trigger] around(
                            direction,
                            i,
                            m,
                            len,
                        )]].windows == Set::<WindowId>::empty()
                }
        }),
{
    let skip_empty = Some(true);
    let ids = model.by_display[display];
    let len = ids.len() as int;
    crate::model::laws::listing_is_complete(model, display);
    let offered = |id: VirtualWorkspaceId| model.offered(id, skip_empty);
    let existing = |id: VirtualWorkspaceId| model.offered(id, Some(false));
    assert forall|k: int| 0 <= k < len implies existing(#[trigger] ids[k]) && (offered(ids[k])
        <==> model.workspaces[ids[k]].windows != Set::<WindowId>::empty()) by {
        assert(model.owns(display, model.by_display[display][k]));
    }
    crate::model::laws::lemma_filter_all(ids, existing);
    let ring = model.ring(display, skip_empty);
    assert(ring == ids.filter(offered));
    let r = ring.len() as int;
    let at = crate::common::sequences::filter_keeps_order(ids, offered);
    ring.index_of_first_ensures(current);
    ids.index_of_first_ensures(current);
    assert(ids.index_of_first(current) == Some(i));
    assert(ids.contains(current));
    if r == 0 {
        assert forall|k: int| 0 <= k < len implies (#[trigger] model.workspaces[ids[k]]).windows
            == Set::<WindowId>::empty() by {
            if offered(ids[k]) {
                assert(at.contains(k));
            }
        }
    } else if ring.contains(current) {
        assert(offered(ids[at[0]]));
        assert(model.workspaces[ids[at[0]]].windows != Set::<WindowId>::empty());
        let k = ring.index_of_first(current)->0;
        assert(ids[at[k]] == current);
        assert(at[k] == i);
        lemma_reach_is_around(direction, k, 1, r);
        let next = around(direction, k, 1, r);
        let there = at[next];
        let forward = direction == Direction::Right || direction == Direction::Down;
        let n = if forward {
            if there > i {
                there - i
            } else {
                there - i + len
            }
        } else {
            if there < i {
                i - there
            } else {
                i - there + len
            }
        };
        assert(offered(ids[there]));
        assert(there == around(direction, i, n, len)) by {
            if forward && k + 1 < r {
                assert(at[k] < at[k + 1]);
            }
            if forward && k + 1 >= r && k > 0 {
                assert(at[0] < at[k]);
            }
            if !forward && k > 0 {
                assert(at[k - 1] < at[k]);
            }
            if !forward && k == 0 && r > 1 {
                assert(at[0] < at[r - 1]);
            }
        }
        assert(1 <= n <= len);
        assert forall|m: int| 1 <= m < n implies model.workspaces[ids[#[trigger] around(
            direction,
            i,
            m,
            len,
        )]].windows == Set::<WindowId>::empty() by {
            let p = around(direction, i, m, len);
            lemma_reach_is_around(direction, i, m, len);
            if offered(ids[p]) {
                assert(at.contains(p));
                let q = choose|q: int| 0 <= q < at.len() && at[q] == p;
                if q < k {
                    assert(at[q] < at[k]);
                }
                if q > k {
                    assert(at[k] < at[q]);
                }
                if q < next {
                    assert(at[q] < at[next]);
                }
                if q > next {
                    assert(at[next] < at[q]);
                }
                if k < next {
                    assert(at[k] < at[next]);
                }
                if next < k {
                    assert(at[next] < at[k]);
                }
                assert(false);
            }
        }
        assert(found == Some(ids[around(direction, i, n, len)]));
    } else {
        assert(offered(ids[at[0]]));
        assert(model.workspaces[ids[at[0]]].windows != Set::<WindowId>::empty());
        assert forall|m: int| 1 <= m <= len implies #[trigger] direction.reach(i, m, len) == around(
            direction,
            i,
            m,
            len,
        ) && 0 <= around(direction, i, m, len) < len by {
            lemma_reach_is_around(direction, i, m, len);
        }
        match found {
            Some(id) => {
                let n = choose|n: int|
                    {
                        &&& 1 <= n <= len
                        &&& id == ids[#[trigger] direction.reach(i, n, len)]
                        &&& model.offered(id, Some(true))
                        &&& forall|m: int|
                            1 <= m < n ==> !model.offered(
                                ids[#[trigger] direction.reach(i, m, len)],
                                Some(true),
                            )
                    };
                assert(id == ids[around(direction, i, n, len)]);
                assert(offered(id));
                assert forall|m: int| 1 <= m < n implies model.workspaces[ids[#[trigger] around(
                    direction,
                    i,
                    m,
                    len,
                )]].windows == Set::<WindowId>::empty() by {
                    assert(!model.offered(ids[direction.reach(i, m, len)], Some(true)));
                    assert(!offered(ids[around(direction, i, m, len)]));
                }
            },
            None => {
                let p = at[0];
                let forward = direction == Direction::Right || direction == Direction::Down;
                let n = if forward {
                    if p > i {
                        p - i
                    } else {
                        p - i + len
                    }
                } else {
                    if p < i {
                        i - p
                    } else {
                        i - p + len
                    }
                };
                assert(around(direction, i, n, len) == p);
                assert(!model.offered(ids[direction.reach(i, n, len)], Some(true)));
                assert(false);
            },
        }
    }
}

/// The listing of a display holds the workspaces that the display has, at their places and under
/// their names.
pub proof fn listing_names_the_workspaces(model: ManagerModel, display: DisplayId)
    requires
        model.wf(),
        model.by_display.contains_key(display),
    ensures
        model.listing(display).len() == model.by_display[display].len(),
        forall|i: int|
            0 <= i < model.by_display[display].len() ==> {
                &&& (#[trigger] model.listing(display)[i]).0 == model.by_display[display][i]
                &&& model.listing(display)[i].1
                    == model.workspaces[model.by_display[display][i]].name
            },
{
    crate::model::laws::listing_is_complete(model, display);
}

/// The count through the workspaces of all displays goes by display, lower ones first, and within a
/// display by place.
pub proof fn global_count_goes_by_display(
    model: ManagerModel,
    displays: Seq<DisplayId>,
    i: int,
    j: int,
)
    requires
        model.wf(),
        forall|a: int, b: int| 0 <= a < b < displays.len() ==> displays[a] < displays[b],
        0 <= i < j < crate::model::manager_model::global_listing(model, displays).len(),
    ensures
        ({
            let all = crate::model::manager_model::global_listing(model, displays);
            &&& model.by_display.contains_key(all[i].0)
            &&& model.by_display[all[i].0].contains(all[i].1)
            &&& displays.contains(all[j].0)
            &&& {
                ||| all[i].0 < all[j].0
                ||| all[i].0 == all[j].0 && exists|a: int, b: int|
                    {
                        &&& 0 <= a < b < model.by_display[all[i].0].len()
                        &&& #[trigger] model.by_display[all[i].0][a] == all[i].1
                        &&& #[trigger] model.by_display[all[i].0][b] == all[j].1
                    }
            }
        }),
    decreases displays.len(),
{
    let all = crate::model::manager_model::global_listing(model, displays);
    if displays.len() > 0 {
        let front = displays.drop_last();
        let last = displays.last();
        let before = crate::model::manager_model::global_listing(model, front);
        crate::model::laws::listing_is_complete(model, last);
        let ids = model.ids_on(last);
        let here = model.listing(last).map_values(
            |e: (VirtualWorkspaceId, Seq<char>)| (last, e.0),
        );
        assert(all == before + here);
        assert(displays[displays.len() - 1] == last);
        if j < before.len() {
            global_count_goes_by_display(model, front, i, j);
            let a = choose|a: int| 0 <= a < front.len() && front[a] == all[j].0;
            assert(displays[a] == all[j].0);
        } else {
            assert(all[j] == here[j - before.len()]);
            assert(all[j].1 == ids[j - before.len()]);
            if i < before.len() {
                global_count_is_of_the_displays(model, front, i);
                let a = choose|a: int| 0 <= a < front.len() && front[a] == before[i].0;
                assert(displays[a] < displays[displays.len() - 1]);
            } else {
                assert(all[i] == here[i - before.len()]);
                assert(all[i].1 == ids[i - before.len()]);
                assert(model.by_display[last][i - before.len()] == all[i].1);
                assert(model.by_display[last][j - before.len()] == all[j].1);
            }
        }
    }
}

proof fn global_count_is_of_the_displays(model: ManagerModel, displays: Seq<DisplayId>, i: int)
    requires
        model.wf(),
        0 <= i < crate::model::manager_model::global_listing(model, displays).len(),
    ensures
        ({
            let all = crate::model::manager_model::global_listing(model, displays);
            &&& displays.contains(all[i].0)
            &&& model.by_display.contains_key(all[i].0)
            &&& model.by_display[all[i].0].contains(all[i].1)
        }),
    decreases displays.len(),
{
    let all = crate::model::manager_model::global_listing(model, displays);
    if displays.len() > 0 {
        let front = displays.drop_last();
        let last = displays.last();
        let before = crate::model::manager_model::global_listing(model, front);
        crate::model::laws::listing_is_complete(model, last);
        let ids = model.ids_on(last);
        let here = model.listing(last).map_values(
            |e: (VirtualWorkspaceId, Seq<char>)| (last, e.0),
        );
        assert(all == before + here);
        if i < before.len() {
            global_count_is_of_the_displays(model, front, i);
            let a = choose|a: int| 0 <= a < front.len() && front[a] == all[i].0;
            assert(displays[a] == all[i].0);
        } else {
            assert(displays[displays.len() - 1] == last);
            assert(ids[i - before.len()] == all[i].1);
        }
    }
}

/// Storing positions keeps, for each window, the last one that is given, under the workspace that
/// the display shows; the positions of other windows and under other workspaces stay, and so does
/// everything else. On a display that shows no workspace nothing is stored.
pub proof fn last_stored_position_counts(
    before: ManagerModel,
    display: DisplayId,
    stored: Seq<(WindowId, Frame)>,
)
    ensures
        ({
            let after = before.with_positions(display, stored);
            &&& after == ManagerModel { positions: after.positions, ..before }
            &&& !before.active.contains_key(display) ==> after == before
            &&& before.active.contains_key(display) ==> {
                let key = (display, before.active[display].1);
                &&& after.positions.dom() == before.positions.dom().insert(key)
                &&& forall|k: (DisplayId, VirtualWorkspaceId)|
                    k != key && #[trigger] before.positions.contains_key(k) ==> after.positions[k]
                        == before.positions[k]
                &&& forall|i: int|
                    0 <= i < stored.len() && (forall|j: int|
                        i < j < stored.len() ==> (#[trigger] stored[j]).0 != stored[i].0)
                        ==> after.positions[key].get((#[trigger] stored[i]).0) == Some(stored[i].1)
                &&& forall|w: WindowId|
                    (forall|i: int| 0 <= i < stored.len() ==> (#[trigger] stored[i]).0 != w)
                        ==> #[trigger] after.positions[key].get(w)
                        == if before.positions.contains_key(key) {
                        before.positions[key].get(w)
                    } else {
                        None
                    }
            }
        }),
{
    let after = before.with_positions(display, stored);
    if before.active.contains_key(display) {
        let key = (display, before.active[display].1);
        let held = before.positions_in(display, before.active[display].1);
        assert(after.positions.dom() =~= before.positions.dom().insert(key));
        assert forall|i: int|
            0 <= i < stored.len() && (forall|j: int|
                i < j < stored.len() ==> (#[trigger] stored[j]).0 != stored[i].0)
            implies after.positions[key].get((#[trigger] stored[i]).0) == Some(stored[i].1) by {
            last_entry_counts(held, stored, i);
        }
        assert forall|w: WindowId|
            (forall|i: int| 0 <= i < stored.len() ==> (#[trigger] stored[i]).0 != w)
            implies #[trigger] after.positions[key].get(w) == (if before.positions.contains_key(
            key,
        ) {
            before.positions[key].get(w)
        } else {
            None
        }) by {
            other_entries_stay(held, stored, w);
        }
    }
}

/// Of the entries for a window the last counts.
pub proof fn last_entry_counts(
    held: Map<WindowId, Frame>,
    entries: Seq<(WindowId, Frame)>,
    i: int,
)
    requires
        0 <= i < entries.len(),
        forall|j: int| i < j < entries.len() ==> (#[trigger] entries[j]).0 != entries[i].0,
    ensures
        crate::model::manager_model::overwritten(held, entries).get(entries[i].0) == Some(
            entries[i].1,
        ),
    decreases entries.len(),
{
    if i < entries.len() - 1 {
        let front = entries.drop_last();
        assert forall|j: int| i < j < front.len() implies (#[trigger] front[j]).0 != front[i].0 by {
            assert(entries[j].0 != entries[i].0);
        }
        last_entry_counts(held, front, i);
        assert(entries[entries.len() - 1].0 != entries[i].0);
    }
}

/// A window without an entry keeps what is on record for it.
pub proof fn other_entries_stay(
    held: Map<WindowId, Frame>,
    entries: Seq<(WindowId, Frame)>,
    w: WindowId,
)
    requires
        forall|i: int| 0 <= i < entries.len() ==> (#[trigger] entries[i]).0 != w,
    ensures
        crate::model::manager_model::overwritten(held, entries).get(w) == held.get(w),
    decreases entries.len(),
{
    if entries.len() > 0 {
        let front = entries.drop_last();
        assert forall|i: int| 0 <= i < front.len() implies (#[trigger] front[i]).0 != w by {
            assert(entries[i].0 != w);
        }
        other_entries_stay(held, front, w);
        assert(entries[entries.len() - 1].0 != w);
    }
}

/// Positions are read where they are kept: under the display and the workspace.
pub proof fn positions_are_read_where_they_are_kept(
    model: ManagerModel,
    display: DisplayId,
    id: VirtualWorkspaceId,
    w: WindowId,
)
    ensures
        model.positions_in(display, id).get(w) == if model.positions.contains_key((display, id)) {
            model.positions[(display, id)].get(w)
        } else {
            None
        },
{
}

/// Forgetting the positions of some windows takes those out, under every workspace, and changes
/// nothing else.
pub proof fn forgetting_takes_out_positions(before: ManagerModel, pred: spec_fn(WindowId) -> bool)
    ensures
        ({
            let after = before.without_positions(pred);
            &&& after == ManagerModel { positions: after.positions, ..before }
            &&& after.positions.dom() == before.positions.dom()
            &&& forall|k: (DisplayId, VirtualWorkspaceId), w: WindowId|
                before.positions.contains_key(k) ==> #[trigger] after.positions[k].get(w) == if pred(
                    w,
                ) {
                    None
                } else {
                    before.positions[k].get(w)
                }
        }),
{
    assert(before.without_positions(pred).positions.dom() =~= before.positions.dom());
}

/// A change of one workspace changes no other, and nothing but the workspaces.
pub proof fn change_of_one_workspace(
    before: ManagerModel,
    id: VirtualWorkspaceId,
    workspace: WorkspaceModel,
)
    requires
        before.workspaces.contains_key(id),
    ensures
        ({
            let after = before.with_changed(id, workspace);
            &&& after == ManagerModel { workspaces: after.workspaces, ..before }
            &&& after.workspaces.dom() == before.workspaces.dom()
            &&& after.workspaces[id] == workspace
            &&& forall|x: VirtualWorkspaceId|
                x != id && #[trigger] before.workspaces.contains_key(x) ==> after.workspaces[x]
                    == before.workspaces[x]
        }),
{
    assert(before.with_changed(id, workspace).workspaces.dom() =~= before.workspaces.dom());
}

/// A new window goes to the workspace that the display shows. On a display that shows none it goes
/// to the first, which is shown from then on; one that has none has no place for it. Nothing is
/// changed but what this display shows.
pub proof fn new_windows_go_where_the_display_looks(
    before: ManagerModel,
    after: ManagerModel,
    display: DisplayId,
    result: Result<VirtualWorkspaceId, WorkspaceError>,
)
    requires
        before.by_display.contains_key(display),
        before.defaults_to(after, display, result),
    ensures
        before.active.contains_key(display) && before.workspaces.contains_key(
            before.active[display].1,
        ) ==> result == Ok::<VirtualWorkspaceId, WorkspaceError>(before.active[display].1) && after
            == before,
        !before.active.contains_key(display) && before.by_display[display].len() > 0
            && before.workspaces.contains_key(before.by_display[display][0])
            && before.workspaces[before.by_display[display][0]].display == display ==> {
            &&& result == Ok::<VirtualWorkspaceId, WorkspaceError>(before.by_display[display][0])
            &&& after.active.contains_key(display)
            &&& after.active[display] == (
                None::<VirtualWorkspaceId>,
                before.by_display[display][0],
            )
        },
        !before.active.contains_key(display) && before.by_display[display].len() == 0 ==> {
            &&& result matches Err(WorkspaceError::InconsistentState(text))
            &&& text@ == "No workspaces for display"@
        },
        after == (ManagerModel { active: after.active, ..before }),
        forall|d: DisplayId|
            d != display ==> #[trigger] after.active.get(d) == before.active.get(d),
{
    let ready = choose|ready: ManagerModel| #[trigger]
        before.initializes(ready, display) && ready.picks_default(after, display, result);
    assert(ready == before);
}

/// A window that is on the display keeps its workspace and whether a rule lets it float, and nothing
/// changes, whatever rule applies to it.
pub proof fn window_on_the_display_stays(
    before: ManagerModel,
    after: ManagerModel,
    display: DisplayId,
    window: WindowId,
    rule: Option<AppWorkspaceRule>,
    result: Result<(VirtualWorkspaceId, bool), WorkspaceError>,
)
    requires
        before.wf(),
        before.assigned.contains_key((display, window)),
        before.assigns_by_rule(after, display, window, rule, result),
    ensures
        after == before,
        result is Ok,
        result->Ok_0.0 == before.assigned[(display, window)],
        result->Ok_0.1 == (before.rule_floating.contains_key((display, window))
            && before.rule_floating[(display, window)]),
{
    let ready = choose|ready: ManagerModel| #[trigger]
        before.initializes(ready, display) && ready.admits(after, display, window, rule, result);
    let id = before.assigned[(display, window)];
    assert(before.owns(display, id));
    assert(before.ids_on(display).contains(id));
}

/// A window floats by its rule: exactly when the rule that applied when it was given its workspace
/// says so, and not without a rule.
pub proof fn rule_decides_whether_a_window_floats(
    before: ManagerModel,
    after: ManagerModel,
    display: DisplayId,
    window: WindowId,
    rule: Option<AppWorkspaceRule>,
    result: Result<(VirtualWorkspaceId, bool), WorkspaceError>,
)
    requires
        before.wf(),
        before.settings.max_workspaces >= 1,
        !before.assigned.contains_key((display, window)),
        before.assigns_by_rule(after, display, window, rule, result),
    ensures
        result is Ok,
        result->Ok_0.1 <==> rule is Some && rule->0.floating,
        after.rule_floating.get((display, window)) == if rule is Some && rule->0.floating {
            Some(true)
        } else {
            None
        },
        after.assigned.get((display, window)) == Some(result->Ok_0.0),
        after.workspaces.contains_key(result->Ok_0.0),
        after.workspaces[result->Ok_0.0].display == display,
        after.workspaces[result->Ok_0.0].windows.contains(window),
{
    crate::model::laws::assignment_by_rule_succeeds(before, after, display, window, rule, result);
    crate::model::laws::rule_settles_the_window(before, after, display, window, rule, result);
}

/// The windows of the display's workspaces that are not shown are those that are assigned to one of
/// its workspaces other than the shown.
pub proof fn windows_behind_the_shown_workspace(
    model: ManagerModel,
    display: DisplayId,
    window: WindowId,
    id: VirtualWorkspaceId,
)
    ensures
        model.hidden_with(display, window).contains(id) <==> {
            &&& model.workspaces.contains_key(id)
            &&& model.workspaces[id].display == display
            &&& model.workspaces[id].windows.contains(window)
            &&& !(model.active.contains_key(display) && model.active[display].1 == id)
        },
{
}

/// A display that is in use and has no workspaces takes no windows: it says so, and nothing changes.
pub proof fn display_without_workspaces_takes_no_windows(
    before: ManagerModel,
    after: ManagerModel,
    display: DisplayId,
    window: WindowId,
    rule: Option<AppWorkspaceRule>,
    result: Result<(VirtualWorkspaceId, bool), WorkspaceError>,
)
    requires
        before.by_display.contains_key(display),
        before.by_display[display].len() == 0,
        before.assigns_by_rule(after, display, window, rule, result),
    ensures
        after == before,
        result is Err,
        result->Err_0 is NoWorkspacesAvailable,
{
    let ready = choose|ready: ManagerModel| #[trigger]
        before.initializes(ready, display) && ready.admits(after, display, window, rule, result);
    assert(ready == before);
}

/// A display shows only workspaces of its own: a request to show one is followed exactly when it is,
/// and changes nothing otherwise. The one that it showed before is remembered.
pub proof fn display_shows_its_own_workspaces(
    before: ManagerModel,
    after: ManagerModel,
    display: DisplayId,
    id: VirtualWorkspaceId,
    shown: bool,
)
    requires
        before.shows_own(after, display, id, shown),
    ensures
        shown <==> before.workspaces.contains_key(id) && before.workspaces[id].display == display,
        !shown ==> after == before,
        shown ==> {
            &&& after.active.contains_key(display)
            &&& after.active_on(display) == Some(id)
            &&& after.last_on(display) == before.active_on(display)
            &&& after == (ManagerModel { active: after.active, ..before })
        },
        forall|d: DisplayId|
            d != display ==> #[trigger] after.active.get(d) == before.active.get(d),
{
    switch_changes_one_display(before, display, id);
}

/// A workspace takes a window on its own display only: a request to put a window into it is followed
/// exactly when it is on that display, and changes nothing otherwise.
pub proof fn workspace_takes_windows_on_its_display(
    before: ManagerModel,
    after: ManagerModel,
    display: DisplayId,
    window: WindowId,
    id: VirtualWorkspaceId,
    moved: bool,
)
    requires
        before.wf(),
        before.moves_to_own(after, display, window, id, moved),
    ensures
        moved <==> before.workspaces.contains_key(id) && before.workspaces[id].display == display,
        !moved ==> after == before,
        moved ==> {
            &&& after.assigned.get((display, window)) == Some(id)
            &&& after.workspaces[id].windows.contains(window)
            &&& forall|x: VirtualWorkspaceId|
                x != id && #[trigger] after.workspaces.contains_key(x)
                    ==> !after.workspaces[x].windows.contains(window)
        },
{
    if moved {
        move_changes_one_window(before, after, display, window, id);
    }
}

/// A workspace of a display is called what it was last renamed to. Only its name changes, and only
/// when it is on that display.
pub proof fn workspace_goes_by_its_new_name(
    before: ManagerModel,
    after: ManagerModel,
    display: DisplayId,
    id: VirtualWorkspaceId,
    name: Seq<char>,
    renamed: bool,
)
    requires
        before.renames_own(after, display, id, name, renamed),
    ensures
        renamed <==> before.workspaces.contains_key(id) && before.workspaces[id].display == display,
        !renamed ==> after == before,
        renamed ==> {
            &&& after.workspaces[id].name == name
            &&& after.workspaces[id].display == display
            &&& after.workspaces[id].windows == before.workspaces[id].windows
            &&& after.workspaces[id].space == before.workspaces[id].space
            &&& after.workspaces[id].last_focused == before.workspaces[id].last_focused
        },
        after.workspaces.dom() == before.workspaces.dom(),
        forall|x: VirtualWorkspaceId|
            x != id && #[trigger] before.workspaces.contains_key(x) ==> after.workspaces[x]
                == before.workspaces[x],
        after == (ManagerModel { workspaces: after.workspaces, ..before }),
{
    assert(after.workspaces.dom() =~= before.workspaces.dom());
}

/// The window that was last remembered as having had the focus in a workspace of a display is the one
/// that is told. A workspace of another display neither remembers nor tells one. Nothing else changes.
pub proof fn last_focus_is_told(
    before: ManagerModel,
    display: DisplayId,
    id: VirtualWorkspaceId,
    window: Option<WindowId>,
    other: VirtualWorkspaceId,
    d: DisplayId,
)
    ensures
        ({
            let after = before.with_focus(display, id, window);
            let is_own = before.workspaces.contains_key(id) && before.workspaces[id].display
                == display;
            &&& is_own ==> after.focus_in(display, id) == window
            &&& !is_own ==> after == before && after.focus_in(display, id) is None
            &&& other != id || d != display ==> after.focus_in(d, other) == before.focus_in(d, other)
            &&& before.focus_in(d, other) is Some ==> before.workspaces.contains_key(other)
                && before.workspaces[other].display == d
            &&& after.workspaces.dom() == before.workspaces.dom()
            &&& before.workspaces.contains_key(other) ==> {
                &&& after.workspaces[other].name == before.workspaces[other].name
                &&& after.workspaces[other].display == before.workspaces[other].display
                &&& after.workspaces[other].space == before.workspaces[other].space
                &&& after.workspaces[other].windows == before.workspaces[other].windows
            }
            &&& after == (ManagerModel { workspaces: after.workspaces, ..before })
        }),
{
    let after = before.with_focus(display, id, window);
    assert(after.workspaces.dom() =~= before.workspaces.dom());
}

/// A rule lets a window float exactly when that is on record for its display.
pub proof fn floating_by_rule_is_told(model: ManagerModel, display: DisplayId, window: WindowId)
    ensures
        model.lets_float(display, window) <==> model.rule_floating.get((display, window)) == Some(
            true,
        ),
{
}

/// A space is found on a display that it was recorded for: on some display once it has been recorded,
/// and on that very display when it was recorded for no other. One that was recorded for no display
/// is not found.
pub proof fn recorded_space_is_found(
    before: ManagerModel,
    display: DisplayId,
    space: SpaceId,
    wanted: SpaceId,
    found: Option<DisplayId>,
)
    requires
        before.with_space(display, space).finds_space(wanted, found),
    ensures
        wanted == space ==> found is Some,
        wanted == space && (forall|d: DisplayId| #[trigger]
            before.display_spaces.contains_key(d) && before.display_spaces[d] == space ==> d
                == display) ==> found == Some(display),
        wanted != space && found is Some ==> {
            &&& found != Some(display)
            &&& before.display_spaces.contains_key(found->0)
            &&& before.display_spaces[found->0] == wanted
        },
        wanted != space && (exists|d: DisplayId|
            d != display && #[trigger] before.display_spaces.contains_key(d)
                && before.display_spaces[d] == wanted) ==> found is Some,
{
    let after = before.with_space(display, space);
    assert(after.display_spaces.contains_key(display));
    assert(after.display_spaces[display] == space);
    if wanted != space && (exists|d: DisplayId|
        d != display && #[trigger] before.display_spaces.contains_key(d)
            && before.display_spaces[d] == wanted) {
        let d = choose|d: DisplayId|
            d != display && #[trigger] before.display_spaces.contains_key(d)
                && before.display_spaces[d] == wanted;
        assert(after.display_spaces.contains_key(d));
        assert(after.display_spaces[d] == wanted);
    }
}

/// The displays in use stand in one order only.
proof fn rising_displays_are_unique(a: Seq<DisplayId>, b: Seq<DisplayId>, set: Set<DisplayId>)
    requires
        crate::model::manager_model::rising_displays(a, set),
        crate::model::manager_model::rising_displays(b, set),
    ensures
        a == b,
    decreases a.len(),
{
    assert(a.len() == b.len()) by {
        a.unique_seq_to_set();
        b.unique_seq_to_set();
    }
    assert forall|i: int| 0 <= i < a.len() implies a[i] == b[i] by {
        rising_displays_agree(a, b, set, i);
    }
    assert(a =~= b);
}

proof fn rising_displays_agree(a: Seq<DisplayId>, b: Seq<DisplayId>, set: Set<DisplayId>, i: int)
    requires
        crate::model::manager_model::rising_displays(a, set),
        crate::model::manager_model::rising_displays(b, set),
        a.len() == b.len(),
        0 <= i < a.len(),
    ensures
        a[i] == b[i],
    decreases i,
{
    assert forall|j: int| 0 <= j < i implies a[j] == b[j] by {
        rising_displays_agree(a, b, set, j);
    }
    assert(a.to_set().contains(a[i]));
    assert(b.to_set().contains(b[i]));
    let in_b = choose|k: int| 0 <= k < b.len() && b[k] == a[i];
    let in_a = choose|k: int| 0 <= k < a.len() && a[k] == b[i];
    if in_b < i {
        assert(a[in_b] == a[i]);
    }
    if in_a < i {
        assert(b[in_a] == b[i]);
    }
}

/// When the workspaces of all displays are counted through, each position is that of a workspace on
/// the list of its display, positions are filled from zero on without gaps, and a later position is
/// one on a higher display, or further on in the list of the same display.
pub proof fn positions_count_through_the_displays(
    model: ManagerModel,
    i: int,
    j: int,
    at_i: Option<(DisplayId, VirtualWorkspaceId)>,
    at_j: Option<(DisplayId, VirtualWorkspaceId)>,
)
    requires
        model.wf(),
        0 <= i < j,
        model.finds_at(i, at_i),
        model.finds_at(j, at_j),
    ensures
        at_j is Some ==> at_i is Some,
        at_j is Some ==> {
            let (d, x) = at_i->0;
            let (e, y) = at_j->0;
            &&& model.by_display.contains_key(d)
            &&& model.by_display[d].contains(x)
            &&& {
                ||| d < e
                ||| d == e && exists|a: int, b: int|
                    {
                        &&& 0 <= a < b < model.by_display[d].len()
                        &&& #[trigger] model.by_display[d][a] == x
                        &&& #[trigger] model.by_display[d][b] == y
                    }
            }
        },
{
    let displays = choose|displays: Seq<DisplayId>|
        {
            let all = crate::model::manager_model::global_listing(model, displays);
            &&& #[trigger] crate::model::manager_model::rising_displays(
                displays,
                model.by_display.dom(),
            )
            &&& at_i == if i < all.len() {
                Some(all[i])
            } else {
                None
            }
        };
    let others = choose|displays: Seq<DisplayId>|
        {
            let all = crate::model::manager_model::global_listing(model, displays);
            &&& #[trigger] crate::model::manager_model::rising_displays(
                displays,
                model.by_display.dom(),
            )
            &&& at_j == if j < all.len() {
                Some(all[j])
            } else {
                None
            }
        };
    rising_displays_are_unique(displays, others, model.by_display.dom());
    if at_j is Some {
        global_count_goes_by_display(model, displays, i, j);
    }
}

/// The windows that are listed for a workspace of a display are, each once, those that are assigned to
/// it on that display.
pub proof fn assigned_windows_are_listed(
    model: ManagerModel,
    display: DisplayId,
    id: VirtualWorkspaceId,
    listed: Seq<WindowId>,
    window: WindowId,
)
    requires
        model.wf(),
        model.lists_windows(display, id, listed),
    ensures
        listed.no_duplicates(),
        listed.contains(window) <==> model.assigned.get((display, window)) == Some(id),
{
    assert(listed.to_set().contains(window) <==> listed.contains(window));
    if model.owns(display, id) {
        assert(model.workspaces[id].windows.contains(window) <==> listed.contains(window));
    }
    if model.assigned.contains_key((display, window)) {
        assert(model.owns(display, model.assigned[(display, window)]));
    }
}

} // verus!

//! What the workspace manager holds, and how each request changes it.
use vstd::prelude::*;
use crate::common::config::{AppWorkspaceRule, WorkspaceDefinition, WorkspaceSelector};
use crate::common::text::decimal;
use crate::model::geometry::Frame;
use crate::model::ids::{DisplayId, SpaceId, VirtualWorkspaceId, WindowId};
use crate::model::workspace::{WorkspaceError, WorkspaceModel};

verus! {

/// The direction of a step through a list of workspaces.
#[derive(Debug, Clone, Copy, PartialEq, Eq, Structural)]
pub enum Direction {
    Left,
    Right,
    Up,
    Down,
}

impl Direction {
    /// The direction leads to higher positions.
    pub open spec fn is_forward(self) -> bool {
        self == Direction::Right || self == Direction::Down
    }

    /// The position `n` steps away from `from` in a ring of `len` positions.
    pub open spec fn reach(self, from: int, n: int, len: int) -> int {
        if self.is_forward() {
            (from + n) % len
        } else {
            (from - n) % len
        }
    }

    /// The next position in the direction; the last and the first are neighbours.
    pub fn step(self, from: usize, len: usize) -> (r: usize)
        requires
            from < len,
        ensures
            r == self.reach(from as int, 1, len as int),
            r < len,
    {
        match self {
            Direction::Right | Direction::Down => {
                if from == len - 1 {
                    assert((from + 1) % (len as int) == 0) by (nonlinear_arith)
                        requires
                            from + 1 == len,
                            len > 0,
                    ;
                    0
                } else {
                    assert((from + 1) % (len as int) == from + 1) by (nonlinear_arith)
                        requires
                            0 <= from + 1 < len,
                    ;
                    from + 1
                }
            },
            Direction::Left | Direction::Up => {
                if from == 0 {
                    assert((-1int) % (len as int) == len - 1) by (nonlinear_arith)
                        requires
                            len > 0,
                    ;
                    len - 1
                } else {
                    assert((from - 1) % (len as int) == from - 1) by (nonlinear_arith)
                        requires
                            0 <= from - 1 < len,
                    ;
                    from - 1
                }
            },
        }
    }
}

/// The settings that the manager was made with.
#[verifier::ext_equal]
pub struct ManagerSettings {
    pub app_rules: Seq<AppWorkspaceRule>,
    pub max_workspaces: usize,
    pub default_workspace_count: usize,
    pub default_workspace_names: Seq<Seq<char>>,
    pub auto_back_and_forth: bool,
    pub definitions: Seq<WorkspaceDefinition>,
}

/// What the manager holds.
#[verifier::ext_equal]
pub struct ManagerModel {
    /// Every workspace by its id.
    pub workspaces: Map<VirtualWorkspaceId, WorkspaceModel>,
    /// The workspaces of each display that is in use, in order.
    pub by_display: Map<DisplayId, Seq<VirtualWorkspaceId>>,
    /// The workspace that each display showed before, and the one it shows.
    pub active: Map<DisplayId, (Option<VirtualWorkspaceId>, VirtualWorkspaceId)>,
    /// The workspace of each window.
    pub assigned: Map<(DisplayId, WindowId), VirtualWorkspaceId>,
    pub display_spaces: Map<DisplayId, SpaceId>,
    /// The windows that a rule lets float.
    pub rule_floating: Map<(DisplayId, WindowId), bool>,
    pub positions: Map<(DisplayId, VirtualWorkspaceId), Map<WindowId, Frame>>,
    /// The number in the next name that is made up.
    pub counter: usize,
    pub settings: ManagerSettings,
}

/// The definition is for the display.
pub open spec fn defined_on(definition: WorkspaceDefinition, display: DisplayId) -> bool {
    definition.display is None || definition.display == Some(display)
}

/// The name of a workspace that was given none.
pub open spec fn numbered_name(n: nat) -> Seq<char> {
    "Workspace "@ + decimal(n)
}

pub open spec fn least(a: int, b: int) -> int {
    if a <= b {
        a
    } else {
        b
    }
}

pub open spec fn greatest(a: int, b: int) -> int {
    if a >= b {
        a
    } else {
        b
    }
}

impl ManagerSettings {
    /// The definitions for a display, in order.
    pub open spec fn definitions_on(self, display: DisplayId) -> Seq<WorkspaceDefinition> {
        self.definitions.filter(|d: WorkspaceDefinition| defined_on(d, display))
    }

    /// The names of the workspaces that a display starts with. Where there are definitions they
    /// are those for the display, up to the limit, or a single one when none is for it. Otherwise
    /// they are the default number, at least one and within the limit, named from the list of
    /// default names as far as it reaches.
    pub open spec fn planned_names(self, display: DisplayId) -> Seq<Seq<char>> {
        if self.definitions.len() > 0 {
            let wanted = self.definitions_on(display);
            if wanted.len() == 0 {
                seq![numbered_name(1)]
            } else {
                wanted.take(
                    least(wanted.len() as int, greatest(self.max_workspaces as int, 1)),
                ).map_values(|d: WorkspaceDefinition| d.name@)
            }
        } else {
            Seq::new(
                least(
                    greatest(self.default_workspace_count as int, 1),
                    self.max_workspaces as int,
                ) as nat,
                |i: int|
                    if i < self.default_workspace_names.len() {
                        self.default_workspace_names[i]
                    } else {
                        numbered_name((i + 1) as nat)
                    },
            )
        }
    }
}

/// The workspaces `after` are those `before` and one new empty workspace of the display for each
/// of the ids, with the names in order.
pub open spec fn grown(
    before: Map<VirtualWorkspaceId, WorkspaceModel>,
    after: Map<VirtualWorkspaceId, WorkspaceModel>,
    ids: Seq<VirtualWorkspaceId>,
    names: Seq<Seq<char>>,
    display: DisplayId,
) -> bool {
    &&& ids.len() == names.len()
    &&& ids.no_duplicates()
    &&& forall|i: int| 0 <= i < ids.len() ==> !before.contains_key(#[trigger] ids[i])
    &&& after.dom() == before.dom().union(ids.to_set())
    &&& forall|i: int|
        0 <= i < ids.len() ==> after[#[trigger] ids[i]] == WorkspaceModel::fresh(names[i], display)
    &&& forall|id: VirtualWorkspaceId| #[trigger]
        before.contains_key(id) ==> after[id] == before[id]
}

pub open spec fn inconsistent(e: WorkspaceError, message: Seq<char>) -> bool {
    e matches WorkspaceError::InconsistentState(text) && text@ == message
}

pub open spec fn limit_message(limit: usize, display: DisplayId) -> Seq<char> {
    "Maximum workspace limit ("@ + decimal(limit as nat) + ") reached for display "@ + decimal(
        display as nat,
    )
}

impl ManagerModel {
    /// A manager with no display in use.
    pub open spec fn empty(settings: ManagerSettings) -> Self {
        ManagerModel {
            workspaces: Map::empty(),
            by_display: Map::empty(),
            active: Map::empty(),
            assigned: Map::empty(),
            display_spaces: Map::empty(),
            rule_floating: Map::empty(),
            positions: Map::empty(),
            counter: 1,
            settings,
        }
    }

    /// The workspace exists and is one of the display.
    pub open spec fn owns(self, display: DisplayId, id: VirtualWorkspaceId) -> bool {
        self.workspaces.contains_key(id) && self.workspaces[id].display == display
    }

    /// The ids of the display's workspaces, in order.
    pub open spec fn ids_on(self, display: DisplayId) -> Seq<VirtualWorkspaceId> {
        if self.by_display.contains_key(display) {
            self.by_display[display]
        } else {
            Seq::empty()
        }
    }

    /// The workspace that the display shows.
    pub open spec fn active_on(self, display: DisplayId) -> Option<VirtualWorkspaceId> {
        if self.active.contains_key(display) {
            Some(self.active[display].1)
        } else {
            None
        }
    }

    /// The workspace that the display showed before.
    pub open spec fn last_on(self, display: DisplayId) -> Option<VirtualWorkspaceId> {
        if self.active.contains_key(display) {
            self.active[display].0
        } else {
            None
        }
    }

    /// The number of workspaces that are still to be made for the display.
    pub open spec fn pending(self, display: DisplayId) -> nat {
        if self.by_display.contains_key(display) {
            0
        } else {
            self.settings.planned_names(display).len()
        }
    }

    /// The store has room for the workspaces that are still to be made for the display and for
    /// `extra` more.
    pub open spec fn fits(self, display: DisplayId, extra: nat) -> bool {
        self.pending(display) + extra == 0 || self.workspaces.len() + self.pending(display) + extra
            < u32::MAX
    }

    /// The number of workspaces that are still to be made for the first `n` displays.
    pub open spec fn pending_below(self, n: nat) -> nat
        decreases n,
    {
        if n == 0 {
            0
        } else {
            self.pending_below((n - 1) as nat) + self.pending((n - 1) as DisplayId)
        }
    }

    /// The store has room for the workspaces that are still to be made for the first `n`
    /// displays.
    pub open spec fn fits_below(self, n: nat) -> bool {
        self.pending_below(n) == 0 || self.workspaces.len() + self.pending_below(n) < u32::MAX
    }

    /// Puts the display in use: it gets the workspaces that are planned for it and shows the
    /// first. A display that is in use stays as it is.
    pub open spec fn initializes(self, after: Self, display: DisplayId) -> bool {
        if self.by_display.contains_key(display) {
            after == self
        } else {
            let ids = after.ids_on(display);
            &&& grown(
                self.workspaces,
                after.workspaces,
                ids,
                self.settings.planned_names(display),
                display,
            )
            &&& after == ManagerModel {
                workspaces: after.workspaces,
                by_display: self.by_display.insert(display, ids),
                active: if ids.len() > 0 {
                    self.active.insert(display, (None, ids[0]))
                } else {
                    self.active
                },
                ..self
            }
        }
    }

    /// The manager once a workspace has been added to a display.
    pub open spec fn with_workspace(
        self,
        display: DisplayId,
        id: VirtualWorkspaceId,
        name: Option<Seq<char>>,
    ) -> Self {
        let workspace = WorkspaceModel {
            space: self.display_spaces.get(display),
            ..WorkspaceModel::fresh(
                match name {
                    Some(n) => n,
                    None => numbered_name(self.counter as nat),
                },
                display,
            )
        };
        ManagerModel {
            workspaces: self.workspaces.insert(id, workspace),
            by_display: self.by_display.insert(display, self.ids_on(display).push(id)),
            counter: if name is None {
                (self.counter + 1) as usize
            } else {
                self.counter
            },
            ..self
        }
    }

    /// Adds a workspace to a display that is in use, unless it has reached the limit.
    pub open spec fn adds(
        self,
        after: Self,
        display: DisplayId,
        name: Option<Seq<char>>,
        result: Result<VirtualWorkspaceId, WorkspaceError>,
    ) -> bool {
        if self.ids_on(display).len() >= self.settings.max_workspaces {
            &&& after == self
            &&& result matches Err(e)
            &&& inconsistent(e, limit_message(self.settings.max_workspaces, display))
        } else {
            &&& result matches Ok(id)
            &&& !self.workspaces.contains_key(id)
            &&& after == self.with_workspace(display, id, name)
        }
    }

    /// Puts the display in use and adds a workspace to it.
    pub open spec fn creates(
        self,
        after: Self,
        display: DisplayId,
        name: Option<Seq<char>>,
        result: Result<VirtualWorkspaceId, WorkspaceError>,
    ) -> bool {
        exists|ready: Self| #[trigger]
            self.initializes(ready, display) && ready.adds(after, display, name, result)
    }

    /// Records the space of a display, on the display and on each of its workspaces.
    pub open spec fn with_space(self, display: DisplayId, space: SpaceId) -> Self {
        ManagerModel {
            display_spaces: self.display_spaces.insert(display, space),
            workspaces: self.workspaces.map_entries(
                |id: VirtualWorkspaceId, w: WorkspaceModel|
                    if self.ids_on(display).contains(id) {
                        WorkspaceModel { space: Some(space), ..w }
                    } else {
                        w
                    },
            ),
            ..self
        }
    }

    /// Shows a workspace on a display and remembers the one that it showed.
    pub open spec fn activated(self, display: DisplayId, id: VirtualWorkspaceId) -> Self {
        ManagerModel { active: self.active.insert(display, (self.active_on(display), id)), ..self }
    }

    /// The workspace exists, and it has windows where `skip_empty` asks for that.
    pub open spec fn offered(self, id: VirtualWorkspaceId, skip_empty: Option<bool>) -> bool {
        self.workspaces.contains_key(id) && !(skip_empty == Some(true)
            && self.workspaces[id].windows == Set::<WindowId>::empty())
    }

    pub open spec fn offered_ids(self, display: DisplayId, skip_empty: Option<bool>) -> Seq<
        VirtualWorkspaceId,
    > {
        self.ids_on(display).filter(|id: VirtualWorkspaceId| self.offered(id, skip_empty))
    }

    /// The workspaces that a step goes through first.
    pub open spec fn ring(self, display: DisplayId, skip_empty: Option<bool>) -> Seq<
        VirtualWorkspaceId,
    > {
        if skip_empty == Some(true) {
            self.offered_ids(display, skip_empty)
        } else {
            self.ids_on(display)
        }
    }

    /// `found` is the first workspace with windows that a walk through `ids` meets, from `start`
    /// on in the direction and at most once round.
    pub open spec fn walks_to(
        self,
        ids: Seq<VirtualWorkspaceId>,
        start: int,
        direction: Direction,
        found: Option<VirtualWorkspaceId>,
    ) -> bool {
        let len = ids.len() as int;
        match found {
            Some(id) => exists|n: int|
                {
                    &&& 1 <= n <= len
                    &&& id == ids[#[trigger] direction.reach(start, n, len)]
                    &&& self.offered(id, Some(true))
                    &&& forall|m: int|
                        1 <= m < n ==> !self.offered(
                            ids[#[trigger] direction.reach(start, m, len)],
                            Some(true),
                        )
                },
            None => forall|n: int|
                1 <= n <= len ==> !self.offered(
                    ids[#[trigger] direction.reach(start, n, len)],
                    Some(true),
                ),
        }
    }

    /// `found` is where a step from `current` leads. Within the ring it is the neighbour. From a
    /// workspace that the ring leaves out because it is empty it is the nearest one with windows.
    pub open spec fn steps_to(
        self,
        display: DisplayId,
        current: VirtualWorkspaceId,
        skip_empty: Option<bool>,
        direction: Direction,
        found: Option<VirtualWorkspaceId>,
    ) -> bool {
        let ring = self.ring(display, skip_empty);
        let all = self.offered_ids(display, Some(false));
        if ring.len() == 0 {
            found is None
        } else if ring.contains(current) {
            found == Some(
                ring[direction.reach(ring.index_of_first(current)->0, 1, ring.len() as int)],
            )
        } else if skip_empty != Some(true) || !all.contains(current) {
            found is None
        } else {
            self.walks_to(all, all.index_of_first(current)->0, direction, found)
        }
    }

    /// The windows that leave a workspace when the assignments in `gone` are dropped.
    pub open spec fn leaving(
        self,
        gone: Set<(DisplayId, WindowId)>,
        id: VirtualWorkspaceId,
    ) -> Set<WindowId> {
        Set::new(
            |w: WindowId|
                exists|d: DisplayId| #[trigger] gone.contains((d, w)) && self.assigned[(d, w)] == id,
        )
    }

    /// The manager once the assignments in `gone` have been dropped.
    pub open spec fn evicted(self, gone: Set<(DisplayId, WindowId)>) -> Self {
        ManagerModel {
            workspaces: self.workspaces.map_entries(
                |id: VirtualWorkspaceId, w: WorkspaceModel| w.without(self.leaving(gone, id)),
            ),
            assigned: self.assigned.remove_keys(gone),
            rule_floating: self.rule_floating.remove_keys(gone),
            ..self
        }
    }

    /// The manager once a window has been put into a workspace.
    pub open spec fn placed(
        self,
        display: DisplayId,
        window: WindowId,
        id: VirtualWorkspaceId,
    ) -> Self {
        ManagerModel {
            workspaces: self.workspaces.insert(id, self.workspaces[id].with(window)),
            assigned: self.assigned.insert((display, window), id),
            ..self
        }
    }

    /// The window is in a workspace of some display.
    pub open spec fn is_assigned(self, window: WindowId) -> bool {
        exists|d: DisplayId| #[trigger] self.assigned.contains_key((d, window))
    }

    /// Moves a window into a workspace, out of the one that it was in.
    pub open spec fn assigns(
        self,
        after: Self,
        display: DisplayId,
        window: WindowId,
        id: VirtualWorkspaceId,
    ) -> bool {
        if self.is_assigned(window) {
            exists|d: DisplayId| #[trigger]
                self.assigned.contains_key((d, window)) && after == self.evicted(
                    set![(d, window)],
                ).placed(display, window, id)
        } else {
            after == self.placed(display, window, id)
        }
    }

    /// The assignments of the windows that `pred` picks.
    pub open spec fn assignments_of(self, pred: spec_fn(WindowId) -> bool) -> Set<
        (DisplayId, WindowId),
    > {
        self.assigned.dom().filter(|k: (DisplayId, WindowId)| pred(k.1))
    }

    /// The workspaces of a display that exist, with their names, in order.
    pub open spec fn listing(self, display: DisplayId) -> Seq<(VirtualWorkspaceId, Seq<char>)> {
        self.ids_on(display).filter(
            |id: VirtualWorkspaceId| self.workspaces.contains_key(id),
        ).map_values(|id: VirtualWorkspaceId| (id, self.workspaces[id].name))
    }

    pub open spec fn with_rule_floating(
        self,
        display: DisplayId,
        window: WindowId,
        floating: bool,
    ) -> Self {
        ManagerModel {
            rule_floating: if floating {
                self.rule_floating.insert((display, window), true)
            } else {
                self.rule_floating.remove((display, window))
            },
            ..self
        }
    }

    /// Finds the workspace that new windows go to: the one that the display shows, or else its
    /// first, which it then shows.
    pub open spec fn picks_default(
        self,
        after: Self,
        display: DisplayId,
        result: Result<VirtualWorkspaceId, WorkspaceError>,
    ) -> bool {
        let ids = self.ids_on(display);
        let cleared = ManagerModel { active: self.active.remove(display), ..self };
        if self.active.contains_key(display) && self.workspaces.contains_key(
            self.active[display].1,
        ) {
            result == Ok::<VirtualWorkspaceId, WorkspaceError>(self.active[display].1) && after
                == self
        } else if ids.len() == 0 {
            &&& after == cleared
            &&& result matches Err(e)
            &&& inconsistent(e, "No workspaces for display"@)
        } else if self.owns(display, ids[0]) {
            result == Ok::<VirtualWorkspaceId, WorkspaceError>(ids[0]) && after
                == cleared.activated(display, ids[0])
        } else {
            &&& after == cleared
            &&& result matches Err(e)
            &&& inconsistent(e, "Failed to set default workspace as active"@)
        }
    }

    /// Puts the display in use and finds the workspace that new windows go to.
    pub open spec fn defaults_to(
        self,
        after: Self,
        display: DisplayId,
        result: Result<VirtualWorkspaceId, WorkspaceError>,
    ) -> bool {
        exists|ready: Self| #[trigger]
            self.initializes(ready, display) && ready.picks_default(after, display, result)
    }

    /// Moves a window into a workspace of the display and records whether a rule lets it float;
    /// refuses to when the workspace is not one of the display.
    pub open spec fn settles(
        self,
        after: Self,
        display: DisplayId,
        window: WindowId,
        id: VirtualWorkspaceId,
        floating: bool,
    ) -> bool {
        self.owns(display, id) && exists|moved: Self| #[trigger]
            self.assigns(moved, display, window, id) && after == moved.with_rule_floating(
                display,
                window,
                floating,
            )
    }

    /// Puts a window into the workspace that new windows go to.
    pub open spec fn settles_by_default(
        self,
        after: Self,
        display: DisplayId,
        window: WindowId,
        result: Result<VirtualWorkspaceId, WorkspaceError>,
    ) -> bool {
        exists|ready: Self, target: Result<VirtualWorkspaceId, WorkspaceError>| #[trigger]
            self.defaults_to(ready, display, target) && match target {
                Err(e) => result == target && after == ready,
                Ok(id) => if ready.owns(display, id) {
                    result == target && ready.settles(after, display, window, id, false)
                } else {
                    result == Err::<VirtualWorkspaceId, WorkspaceError>(
                        WorkspaceError::AssignmentFailed,
                    ) && after == ready
                },
            }
    }

    /// The position, among the display's workspaces, of the one that a rule names.
    pub open spec fn selected_index(
        self,
        display: DisplayId,
        selector: Option<WorkspaceSelector>,
    ) -> Option<int> {
        match selector {
            None => None,
            Some(WorkspaceSelector::Index(i)) => Some(i as int),
            Some(WorkspaceSelector::Name(n)) => self.listing(display).map_values(
                |e: (VirtualWorkspaceId, Seq<char>)| e.1,
            ).index_of_first(n@),
        }
    }

    /// Finds the workspace that a rule sends windows to: the one that it names, or else the one
    /// that new windows go to.
    pub open spec fn rule_leads_to(
        self,
        after: Self,
        display: DisplayId,
        selector: Option<WorkspaceSelector>,
        result: Result<VirtualWorkspaceId, WorkspaceError>,
    ) -> bool {
        match self.selected_index(display, selector) {
            Some(i) if i < self.ids_on(display).len() && i < self.listing(display).len() => {
                result == Ok::<VirtualWorkspaceId, WorkspaceError>(self.listing(display)[i].0)
                    && after == self
            },
            _ => self.defaults_to(after, display, result),
        }
    }

    /// Gives a window of a display in use its workspace, under the rule that applies to it. A
    /// window that has one keeps it.
    pub open spec fn admits(
        self,
        after: Self,
        display: DisplayId,
        window: WindowId,
        rule: Option<AppWorkspaceRule>,
        result: Result<(VirtualWorkspaceId, bool), WorkspaceError>,
    ) -> bool {
        if self.ids_on(display).len() == 0 {
            after == self && result == Err::<(VirtualWorkspaceId, bool), WorkspaceError>(
                WorkspaceError::NoWorkspacesAvailable,
            )
        } else if self.assigned.contains_key((display, window)) {
            after == self && result == Ok::<(VirtualWorkspaceId, bool), WorkspaceError>(
                (
                    self.assigned[(display, window)],
                    self.rule_floating.contains_key((display, window))
                        && self.rule_floating[(display, window)],
                ),
            )
        } else {
            match rule {
                Some(r) => exists|ready: Self, target: Result<VirtualWorkspaceId, WorkspaceError>|
                    #[trigger]
                    self.rule_leads_to(ready, display, r.workspace, target) && match target {
                        Err(e) => after == ready && result == Err::<
                            (VirtualWorkspaceId, bool),
                            WorkspaceError,
                        >(e),
                        Ok(id) => if ready.owns(display, id) {
                            &&& ready.settles(after, display, window, id, r.floating)
                            &&& result == Ok::<(VirtualWorkspaceId, bool), WorkspaceError>(
                                (id, r.floating),
                            )
                        } else {
                            ready.admits_by_default(after, display, window, result)
                        },
                    },
                None => self.admits_by_default(after, display, window, result),
            }
        }
    }

    /// Puts the display in use and gives a window its workspace, under the rule that applies to
    /// it.
    pub open spec fn assigns_by_rule(
        self,
        after: Self,
        display: DisplayId,
        window: WindowId,
        rule: Option<AppWorkspaceRule>,
        result: Result<(VirtualWorkspaceId, bool), WorkspaceError>,
    ) -> bool {
        exists|ready: Self| #[trigger]
            self.initializes(ready, display) && ready.admits(after, display, window, rule, result)
    }

    /// Gives a window the workspace that new windows go to; no rule lets it float.
    pub open spec fn admits_by_default(
        self,
        after: Self,
        display: DisplayId,
        window: WindowId,
        result: Result<(VirtualWorkspaceId, bool), WorkspaceError>,
    ) -> bool {
        self.settles_by_default(
            after,
            display,
            window,
            match result {
                Ok((id, _)) => Ok(id),
                Err(e) => Err(e),
            },
        ) && (result matches Ok((_, floating)) ==> !floating)
    }

    /// The workspaces of a display that are not shown and hold the window.
    pub open spec fn hidden_with(self, display: DisplayId, window: WindowId) -> Set<
        VirtualWorkspaceId,
    > {
        self.workspaces.dom().filter(
            |id: VirtualWorkspaceId|
                self.owns(display, id) && Some(id) != self.active_on(display)
                    && self.workspaces[id].windows.contains(window),
        )
    }

    /// The positions of the floating windows of a workspace.
    pub open spec fn positions_in(self, display: DisplayId, id: VirtualWorkspaceId) -> Map<
        WindowId,
        Frame,
    > {
        if self.positions.contains_key((display, id)) {
            self.positions[(display, id)]
        } else {
            Map::empty()
        }
    }

    /// The manager once the positions of some windows of the shown workspace have been stored,
    /// one after the other.
    pub open spec fn with_positions(self, display: DisplayId, stored: Seq<(WindowId, Frame)>) -> Self {
        match self.active_on(display) {
            Some(id) => ManagerModel {
                positions: self.positions.insert(
                    (display, id),
                    overwritten(self.positions_in(display, id), stored),
                ),
                ..self
            },
            None => self,
        }
    }

    /// The manager once the positions of the windows that `pred` picks have been forgotten.
    pub open spec fn without_positions(self, pred: spec_fn(WindowId) -> bool) -> Self {
        ManagerModel {
            positions: self.positions.map_values(
                |m: Map<WindowId, Frame>| m.filter_keys(|w: WindowId| !pred(w)),
            ),
            ..self
        }
    }

    /// Shows a workspace on a display if it is one of that display.
    pub open spec fn shows_own(
        self,
        after: Self,
        display: DisplayId,
        id: VirtualWorkspaceId,
        shown: bool,
    ) -> bool {
        &&& shown == self.owns(display, id)
        &&& after == if shown {
            self.activated(display, id)
        } else {
            self
        }
    }

    /// Puts a window into a workspace of a display if it is one of that display.
    pub open spec fn moves_to_own(
        self,
        after: Self,
        display: DisplayId,
        window: WindowId,
        id: VirtualWorkspaceId,
        moved: bool,
    ) -> bool {
        &&& moved == self.owns(display, id)
        &&& if moved {
            self.assigns(after, display, window, id)
        } else {
            after == self
        }
    }

    /// Remembers the window that had the focus last in a workspace of a display.
    pub open spec fn with_focus(
        self,
        display: DisplayId,
        id: VirtualWorkspaceId,
        window: Option<WindowId>,
    ) -> Self {
        if self.owns(display, id) {
            self.with_changed(
                id,
                WorkspaceModel { last_focused: window, ..self.workspaces[id] },
            )
        } else {
            self
        }
    }

    /// The window that had the focus last in a workspace of a display.
    pub open spec fn focus_in(self, display: DisplayId, id: VirtualWorkspaceId) -> Option<WindowId> {
        if self.owns(display, id) {
            self.workspaces[id].last_focused
        } else {
            None
        }
    }

    /// The windows of a workspace of a display, each once; the order is left open.
    pub open spec fn lists_windows(
        self,
        display: DisplayId,
        id: VirtualWorkspaceId,
        listed: Seq<WindowId>,
    ) -> bool {
        if self.owns(display, id) {
            crate::common::sequences::enumerates(listed, self.workspaces[id].windows)
        } else {
            listed.len() == 0
        }
    }

    /// Gives a workspace of a display another name.
    pub open spec fn renames_own(
        self,
        after: Self,
        display: DisplayId,
        id: VirtualWorkspaceId,
        name: Seq<char>,
        renamed: bool,
    ) -> bool {
        &&& renamed == self.owns(display, id)
        &&& after == if renamed {
            self.with_changed(id, WorkspaceModel { name, ..self.workspaces[id] })
        } else {
            self
        }
    }

    /// A rule lets the window float on the display.
    pub open spec fn lets_float(self, display: DisplayId, window: WindowId) -> bool {
        self.rule_floating.contains_key((display, window)) && self.rule_floating[(display, window)]
    }

    /// A display that a space was recorded for, if there is one.
    pub open spec fn finds_space(self, space: SpaceId, found: Option<DisplayId>) -> bool {
        match found {
            Some(d) => self.display_spaces.contains_key(d) && self.display_spaces[d] == space,
            None => !self.display_spaces.contains_value(space),
        }
    }

    /// The workspace at a position when those of all displays are counted through.
    pub open spec fn finds_at(
        self,
        position: int,
        found: Option<(DisplayId, VirtualWorkspaceId)>,
    ) -> bool {
        exists|displays: Seq<DisplayId>|
            {
                let all = global_listing(self, displays);
                &&& #[trigger] rising_displays(displays, self.by_display.dom())
                &&& found == if position < all.len() {
                    Some(all[position])
                } else {
                    None
                }
            }
    }

    /// The manager once a workspace has been changed.
    pub open spec fn with_changed(self, id: VirtualWorkspaceId, workspace: WorkspaceModel) -> Self {
        ManagerModel { workspaces: self.workspaces.insert(id, workspace), ..self }
    }
}

/// `m` once the entries have been inserted in order.
pub open spec fn overwritten(m: Map<WindowId, Frame>, entries: Seq<(WindowId, Frame)>) -> Map<
    WindowId,
    Frame,
>
    decreases entries.len(),
{
    if entries.len() == 0 {
        m
    } else {
        overwritten(m, entries.drop_last()).insert(entries.last().0, entries.last().1)
    }
}

/// The rule at a position.
pub open spec fn rule_at(rules: Seq<AppWorkspaceRule>, position: Option<usize>) -> Option<
    AppWorkspaceRule,
> {
    match position {
        Some(i) => Some(rules[i as int]),
        None => None,
    }
}

/// The displays in the set, in rising order.
pub open spec fn rising_displays(displays: Seq<DisplayId>, dom: Set<DisplayId>) -> bool {
    &&& displays.to_set() == dom
    &&& forall|i: int, j: int| 0 <= i < j < displays.len() ==> displays[i] < displays[j]
}

/// The workspaces of the displays in order, each with its display.
pub open spec fn global_listing(model: ManagerModel, displays: Seq<DisplayId>) -> Seq<
    (DisplayId, VirtualWorkspaceId),
>
    decreases displays.len(),
{
    if displays.len() == 0 {
        Seq::empty()
    } else {
        global_listing(model, displays.drop_last()) + model.listing(displays.last()).map_values(
            |e: (VirtualWorkspaceId, Seq<char>)| (displays.last(), e.0),
        )
    }
}

/// Of fewer displays no more workspaces are to be made.
pub proof fn lemma_pending_below(model: ManagerModel, m: nat, n: nat)
    requires
        m <= n,
    ensures
        model.pending_below(m) <= model.pending_below(n),
    decreases n,
{
    if m < n {
        lemma_pending_below(model, m, (n - 1) as nat);
    }
}

/// Each workspace in a listing exists, and is told with its name.
pub proof fn lemma_listed_exist(model: ManagerModel, display: DisplayId, i: int)
    requires
        0 <= i < model.listing(display).len(),
    ensures
        model.workspaces.contains_key(model.listing(display)[i].0),
        model.ids_on(display).contains(model.listing(display)[i].0),
        model.listing(display)[i].1 == model.workspaces[model.listing(display)[i].0].name,
{
    let present = |id: VirtualWorkspaceId| model.workspaces.contains_key(id);
    let kept = model.ids_on(display).filter(present);
    assert(kept.contains(kept[i]));
    crate::common::sequences::lemma_filter_contains(model.ids_on(display), present, kept[i]);
}

} // verus!

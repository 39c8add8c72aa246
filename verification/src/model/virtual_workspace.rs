//! The workspaces of all displays and the windows in them.
pub mod saved;

use std::collections::HashMap;
use vstd::prelude::*;
use crate::common::collections::{map_keys, sort_ranked, Ranked, VecMap};
use crate::common::config::{
    AppWorkspaceRule, VirtualWorkspaceSettings, WorkspaceDefinition, WorkspaceSelector,
};
use crate::common::text::{decimal_text, same_text};
use crate::model::app_rules::WindowIdentity;
use crate::model::geometry::Frame;
use crate::model::ids::{pid_t, DisplayId, SpaceId, VirtualWorkspaceId, WindowId};
use crate::model::manager_model::{Direction, ManagerModel, ManagerSettings};
use crate::model::slots::WorkspaceSlots;
use crate::model::workspace::{
    FloatingWindowPositions, VirtualWorkspace, WorkspaceError, WorkspaceModel, WorkspaceStats,
};

verus! {

/// The most workspaces that a display may have.
pub const MAX_WORKSPACES: usize = 32;

/// Some of the windows: a single one, or those of a process.
enum WindowChoice {
    One(WindowId),
    OfProcess(pid_t),
}

impl WindowChoice {
    spec fn pred(self) -> spec_fn(WindowId) -> bool {
        |w: WindowId|
            match self {
                WindowChoice::One(window_id) => w == window_id,
                WindowChoice::OfProcess(pid) => w.pid == pid,
            }
    }

    fn picks(&self, w: WindowId) -> (r: bool)
        ensures
            r == self.pred()(w),
    {
        match self {
            WindowChoice::One(window_id) => w == *window_id,
            WindowChoice::OfProcess(pid) => w.pid == *pid,
        }
    }
}

/// Keeps the workspaces of each display, the one that each display shows, and the workspace of
/// each window.
#[derive(Debug)]
pub struct VirtualWorkspaceManager {
    workspaces: WorkspaceSlots,
    pub workspaces_by_display: HashMap<DisplayId, Vec<VirtualWorkspaceId>>,
    pub active_workspace_per_display: HashMap<
        DisplayId,
        (Option<VirtualWorkspaceId>, VirtualWorkspaceId),
    >,
    pub window_to_workspace: VecMap<(DisplayId, WindowId), VirtualWorkspaceId>,
    display_to_space: HashMap<DisplayId, SpaceId>,
    pub window_rule_floating: VecMap<(DisplayId, WindowId), bool>,
    floating_positions: VecMap<(DisplayId, VirtualWorkspaceId), FloatingWindowPositions>,
    workspace_counter: usize,
    app_rules: Vec<AppWorkspaceRule>,
    max_workspaces: usize,
    default_workspace_count: usize,
    default_workspace_names: Vec<String>,
    workspace_auto_back_and_forth: bool,
    workspace_definitions: Vec<WorkspaceDefinition>,
}

/// The characters of each name.
pub open spec fn spelled(names: Seq<String>) -> Seq<Seq<char>> {
    names.map_values(|s: String| s@)
}

/// The characters of a name that may be missing.
pub open spec fn spelled_if_any(name: Option<String>) -> Option<Seq<char>> {
    match name {
        Some(n) => Some(n@),
        None => None,
    }
}

/// What the manager keeps of the settings that it is made with.
pub open spec fn settings_of(config: VirtualWorkspaceSettings) -> ManagerSettings {
    ManagerSettings {
        app_rules: config.app_rules@,
        max_workspaces: MAX_WORKSPACES,
        default_workspace_count: config.default_workspace_count,
        default_workspace_names: spelled(config.workspace_names@),
        auto_back_and_forth: config.workspace_auto_back_and_forth,
        definitions: config.workspaces@,
    }
}

/// The default settings, with rules for applications.
pub open spec fn default_settings(app_rules: Seq<AppWorkspaceRule>) -> ManagerSettings {
    ManagerSettings {
        app_rules,
        max_workspaces: MAX_WORKSPACES,
        default_workspace_count: crate::common::config::DEFAULT_WORKSPACE_COUNT,
        default_workspace_names: Seq::empty(),
        auto_back_and_forth: false,
        definitions: Seq::empty(),
    }
}

/// What is known of a window.
pub open spec fn identity<'a>(
    app_bundle_id: Option<&'a str>,
    app_name: Option<&'a str>,
    window_title: Option<&'a str>,
    ax_role: Option<&'a str>,
    ax_subrole: Option<&'a str>,
) -> WindowIdentity<'a> {
    WindowIdentity { app_bundle_id, app_name, window_title, ax_role, ax_subrole }
}

/// Gives a window its workspace, under the rule that applies to what is known of it.
pub open spec fn assigns_by_info(
    before: ManagerModel,
    after: ManagerModel,
    display: DisplayId,
    window: WindowId,
    who: WindowIdentity,
    result: Result<(VirtualWorkspaceId, bool), WorkspaceError>,
) -> bool {
    exists|chosen: Option<usize>| #[trigger]
        crate::model::app_rules::rule_applies(before.settings.app_rules, who, chosen)
            && before.assigns_by_rule(
            after,
            display,
            window,
            crate::model::manager_model::rule_at(before.settings.app_rules, chosen),
            result,
        )
}

/// What each slot holds.
spec fn workspace_models(slots: WorkspaceSlots) -> Map<VirtualWorkspaceId, WorkspaceModel> {
    crate::model::slots::slot_contents(slots).map_values(|w: VirtualWorkspace| w@)
}

spec fn id_lists(m: Map<DisplayId, Vec<VirtualWorkspaceId>>) -> Map<
    DisplayId,
    Seq<VirtualWorkspaceId>,
> {
    m.map_values(|v: Vec<VirtualWorkspaceId>| v@)
}

spec fn position_models(
    m: Map<(DisplayId, VirtualWorkspaceId), FloatingWindowPositions>,
) -> Map<(DisplayId, VirtualWorkspaceId), Map<WindowId, Frame>> {
    m.map_values(|p: FloatingWindowPositions| p@)
}

impl View for VirtualWorkspaceManager {
    type V = ManagerModel;

    closed spec fn view(&self) -> ManagerModel {
        ManagerModel {
            workspaces: workspace_models(self.workspaces),
            by_display: id_lists(self.workspaces_by_display@),
            active: self.active_workspace_per_display@,
            assigned: self.window_to_workspace@,
            display_spaces: self.display_to_space@,
            rule_floating: self.window_rule_floating@,
            positions: position_models(self.floating_positions@),
            counter: self.workspace_counter,
            settings: ManagerSettings {
                app_rules: self.app_rules@,
                max_workspaces: self.max_workspaces,
                default_workspace_count: self.default_workspace_count,
                default_workspace_names: spelled(self.default_workspace_names@),
                auto_back_and_forth: self.workspace_auto_back_and_forth,
                definitions: self.workspace_definitions@,
            },
        }
    }
}

proof fn lemma_positions_inserted(
    m: Map<(DisplayId, VirtualWorkspaceId), FloatingWindowPositions>,
    k: (DisplayId, VirtualWorkspaceId),
    p: FloatingWindowPositions,
)
    ensures
        position_models(m.insert(k, p)) == position_models(m).insert(k, p@),
{
    assert(position_models(m.insert(k, p)) =~= position_models(m).insert(k, p@));
}

proof fn lemma_models_len(slots: WorkspaceSlots)
    ensures
        workspace_models(slots).len() == crate::model::slots::slot_contents(slots).len(),
{
    assert(workspace_models(slots).dom() =~= crate::model::slots::slot_contents(slots).dom());
}

/// One more name is spelled.
proof fn lemma_spelled_push(names: Seq<String>, name: String)
    ensures
        spelled(names.push(name)) == spelled(names).push(name@),
{
    assert(spelled(names.push(name)) =~= spelled(names).push(name@));
}

/// One more step in a direction.
proof fn lemma_reach_step(direction: Direction, from: int, n: int, len: int)
    requires
        len > 0,
    ensures
        direction.reach(direction.reach(from, n, len), 1, len) == direction.reach(from, n + 1, len),
{
    if direction.is_forward() {
        vstd::arithmetic::div_mod::lemma_add_mod_noop_right(1, from + n, len);
    } else {
        let a = from - n;
        vstd::arithmetic::div_mod::lemma_sub_mod_noop(a, 1, len);
        vstd::arithmetic::div_mod::lemma_sub_mod_noop(a % len, 1, len);
        vstd::arithmetic::div_mod::lemma_mod_twice(a, len);
    }
}

/// The first position of an id in a list.
fn first_position(ids: &Vec<VirtualWorkspaceId>, id: VirtualWorkspaceId) -> (r: Option<usize>)
    ensures
        match r {
            Some(i) => ids@.contains(id) && ids@.index_of_first(id) == Some(i as int) && i
                < ids@.len(),
            None => !ids@.contains(id),
        },
{
    let mut i: usize = 0;
    proof {
        ids@.index_of_first_ensures(id);
    }
    while i < ids.len()
        invariant
            i <= ids@.len(),
            forall|j: int| 0 <= j < i ==> ids@[j] != id,
            match ids@.index_of_first(id) {
                Some(index) => {
                    &&& 0 <= index < ids@.len()
                    &&& ids@[index] == id
                    &&& forall|j: int| 0 <= j < index ==> ids@[j] != id
                },
                None => !ids@.contains(id),
            },
        decreases ids@.len() - i,
    {
        if ids[i] == id {
            return Some(i);
        }
        i += 1;
    }
    None
}

/// Dropping nothing changes nothing.
proof fn lemma_evict_none(model: ManagerModel)
    ensures
        model.evicted(Set::empty()) == model,
{
    let gone = Set::<(DisplayId, WindowId)>::empty();
    let after = model.evicted(gone);
    assert forall|id: VirtualWorkspaceId| #[trigger]
        model.workspaces.contains_key(id) implies after.workspaces[id] == model.workspaces[id] by {
        assert(model.leaving(gone, id) =~= Set::<WindowId>::empty());
        assert(after.workspaces[id] =~= model.workspaces[id]);
    }
    assert(after.workspaces =~= model.workspaces);
    assert(after =~= model);
}

/// Dropping assignments and then one more drops them all.
proof fn lemma_evict_more(
    model: ManagerModel,
    gone: Set<(DisplayId, WindowId)>,
    more: (DisplayId, WindowId),
)
    requires
        model.assigned.contains_key(more),
        !gone.contains(more),
    ensures
        model.evicted(gone).assigned.contains_key(more),
        model.evicted(gone).evicted(set![more]) == model.evicted(gone.insert(more)),
{
    let mid = model.evicted(gone);
    let all = model.evicted(gone.insert(more));
    let after = mid.evicted(set![more]);
    assert forall|id: VirtualWorkspaceId| #[trigger]
        model.workspaces.contains_key(id) implies after.workspaces[id] == all.workspaces[id] by {
        let first = model.leaving(gone, id);
        let second = mid.leaving(set![more], id);
        let both = model.leaving(gone.insert(more), id);
        assert forall|w: WindowId| both.contains(w) <==> first.contains(w) || second.contains(
            w,
        ) by {
            if both.contains(w) {
                let d = choose|d: DisplayId| #[trigger]
                    gone.insert(more).contains((d, w)) && model.assigned[(d, w)] == id;
                if gone.contains((d, w)) {
                    assert(first.contains(w));
                } else {
                    assert(set![more].contains((d, w)));
                    assert(mid.assigned[(d, w)] == id);
                    assert(second.contains(w));
                }
            }
            if first.contains(w) {
                let d = choose|d: DisplayId| #[trigger]
                    gone.contains((d, w)) && model.assigned[(d, w)] == id;
                assert(gone.insert(more).contains((d, w)));
            }
            if second.contains(w) {
                let d = choose|d: DisplayId| #[trigger]
                    set![more].contains((d, w)) && mid.assigned[(d, w)] == id;
                assert(gone.insert(more).contains((d, w)));
            }
        }
        assert(after.workspaces[id] =~= all.workspaces[id]);
    }
    assert(after.workspaces =~= all.workspaces);
    assert(after.assigned =~= all.assigned);
    assert(after.rule_floating =~= all.rule_floating);
}

/// The assignments that a predicate picks out of a list of them all.
proof fn lemma_assignments_listed(
    model: ManagerModel,
    all: Seq<(DisplayId, WindowId)>,
    pred: spec_fn(WindowId) -> bool,
)
    requires
        all.no_duplicates(),
        forall|k: (DisplayId, WindowId)| #[trigger]
            all.contains(k) <==> model.assigned.contains_key(k),
    ensures
        ({
            let kept = all.filter(|k: (DisplayId, WindowId)| pred(k.1));
            &&& kept.no_duplicates()
            &&& kept.to_set() == model.assignments_of(pred)
            &&& forall|i: int| 0 <= i < kept.len() ==> model.assigned.contains_key(kept[i])
        }),
{
    let p = |k: (DisplayId, WindowId)| pred(k.1);
    let kept = all.filter(p);
    crate::common::sequences::lemma_filter_keeps_distinct(all, p);
    assert forall|k: (DisplayId, WindowId)| kept.to_set().contains(k)
        <==> model.assignments_of(pred).contains(k) by {
        crate::common::sequences::lemma_filter_contains(all, p, k);
    }
    assert(kept.to_set() =~= model.assignments_of(pred));
    assert forall|i: int| 0 <= i < kept.len() implies model.assigned.contains_key(kept[i]) by {
        crate::common::sequences::lemma_filter_contains(all, p, kept[i]);
        assert(kept.contains(kept[i]));
    }
}

/// The listing of the first displays begins the listing of all.
proof fn lemma_global_listing_prefix(model: ManagerModel, displays: Seq<DisplayId>, n: int)
    requires
        0 <= n <= displays.len(),
    ensures
        ({
            let part = crate::model::manager_model::global_listing(model, displays.take(n));
            let all = crate::model::manager_model::global_listing(model, displays);
            &&& part.len() <= all.len()
            &&& forall|i: int| 0 <= i < part.len() ==> part[i] == all[i]
        }),
    decreases displays.len() - n,
{
    if n == displays.len() {
        assert(displays.take(n) =~= displays);
    } else {
        lemma_global_listing_prefix(model, displays, n + 1);
        assert(displays.take(n + 1).drop_last() =~= displays.take(n));
    }
}

/// The positions once those of the windows that `pred` picks have been forgotten in the
/// workspaces of a list.
spec fn with_forgotten(
    positions: Map<(DisplayId, VirtualWorkspaceId), Map<WindowId, Frame>>,
    keys: Seq<(DisplayId, VirtualWorkspaceId)>,
    pred: spec_fn(WindowId) -> bool,
) -> Map<(DisplayId, VirtualWorkspaceId), Map<WindowId, Frame>> {
    positions.map_entries(
        |k: (DisplayId, VirtualWorkspaceId), m: Map<WindowId, Frame>|
            if keys.contains(k) {
                m.filter_keys(|w: WindowId| !pred(w))
            } else {
                m
            },
    )
}

/// The positions in one more workspace are forgotten.
proof fn lemma_forget_one(
    positions: Map<(DisplayId, VirtualWorkspaceId), Map<WindowId, Frame>>,
    keys: Seq<(DisplayId, VirtualWorkspaceId)>,
    i: int,
    pred: spec_fn(WindowId) -> bool,
)
    requires
        0 <= i < keys.len(),
        keys.no_duplicates(),
        positions.contains_key(keys[i]),
    ensures
        with_forgotten(positions, keys.take(i), pred)[keys[i]] == positions[keys[i]],
        with_forgotten(positions, keys.take(i + 1), pred) == with_forgotten(
            positions,
            keys.take(i),
            pred,
        ).insert(keys[i], positions[keys[i]].filter_keys(|w: WindowId| !pred(w))),
{
    crate::common::sequences::lemma_take_step(keys, i);
    assert(with_forgotten(positions, keys.take(i + 1), pred) =~= with_forgotten(
        positions,
        keys.take(i),
        pred,
    ).insert(keys[i], positions[keys[i]].filter_keys(|w: WindowId| !pred(w))));
}

/// The first position of a workspace of that name in a list.
fn named_position(workspaces: &Vec<(VirtualWorkspaceId, String)>, name: &String) -> (r: Option<usize>)
    ensures
        ({
            let names = workspaces@.map_values(
                |e: (VirtualWorkspaceId, String)| (e.0, e.1@),
            ).map_values(|e: (VirtualWorkspaceId, Seq<char>)| e.1);
            match r {
                Some(i) => i < workspaces@.len() && names.index_of_first(name@) == Some(i as int),
                None => names.index_of_first(name@) is None,
            }
        }),
{
    let ghost names = workspaces@.map_values(
        |e: (VirtualWorkspaceId, String)| (e.0, e.1@),
    ).map_values(|e: (VirtualWorkspaceId, Seq<char>)| e.1);
    assert(names.len() == workspaces@.len());
    assert(forall|j: int| 0 <= j < names.len() ==> #[trigger] names[j] == workspaces@[j].1@);
    proof {
        names.index_of_first_ensures(name@);
    }
    let mut i: usize = 0;
    while i < workspaces.len()
        invariant
            i <= workspaces@.len(),
            names == workspaces@.map_values(
                |e: (VirtualWorkspaceId, String)| (e.0, e.1@),
            ).map_values(|e: (VirtualWorkspaceId, Seq<char>)| e.1),
            names.len() == workspaces@.len(),
            forall|j: int| 0 <= j < names.len() ==> #[trigger] names[j] == workspaces@[j].1@,
            forall|j: int| 0 <= j < i ==> names[j] != name@,
            match names.index_of_first(name@) {
                Some(index) => {
                    &&& 0 <= index < names.len()
                    &&& names[index] == name@
                    &&& forall|j: int| 0 <= j < index ==> names[j] != name@
                },
                None => !names.contains(name@),
            },
        decreases workspaces@.len() - i,
    {
        if same_text(workspaces[i].1.as_str(), name.as_str()) {
            assert(names[i as int] == name@);
            return Some(i);
        }
        i += 1;
    }
    None
}

/// The name of a workspace that was given none.
fn numbered_name_text(n: u64) -> (r: String)
    ensures
        r@ == crate::model::manager_model::numbered_name(n as nat),
{
    let mut r = "Workspace ".to_string();
    let number = decimal_text(n);
    r.append(number.as_str());
    r
}

impl Default for VirtualWorkspaceManager {
    fn default() -> (r: Self)
        ensures
            r@ == ManagerModel::empty(default_settings(Seq::empty())),
    {
        VirtualWorkspaceManager::new()
    }
}

impl VirtualWorkspaceManager {
    pub fn new_with_config(config: &VirtualWorkspaceSettings) -> (r: Self)
        ensures
            r@ == ManagerModel::empty(settings_of(*config)),
    {
        let r = VirtualWorkspaceManager {
            workspaces: WorkspaceSlots::new(),
            workspaces_by_display: HashMap::new(),
            active_workspace_per_display: HashMap::new(),
            window_to_workspace: VecMap::new(),
            display_to_space: HashMap::new(),
            window_rule_floating: VecMap::new(),
            floating_positions: VecMap::new(),
            workspace_counter: 1,
            app_rules: config.app_rules.clone(),
            max_workspaces: MAX_WORKSPACES,
            default_workspace_count: config.default_workspace_count,
            default_workspace_names: config.workspace_names.clone(),
            workspace_auto_back_and_forth: config.workspace_auto_back_and_forth,
            workspace_definitions: config.workspaces.clone(),
        };
        assert(r.app_rules@ =~= config.app_rules@);
        assert(r.default_workspace_names@ =~= config.workspace_names@);
        assert(r.workspace_definitions@ =~= config.workspaces@);
        assert(r@ =~= ManagerModel::empty(settings_of(*config)));
        r
    }

    /// The names of the workspaces that a display starts with.
    fn plan_names(&self, display: DisplayId) -> (r: Vec<String>)
        ensures
            spelled(r@) == self@.settings.planned_names(display),
    {
        let mut names: Vec<String> = Vec::new();
        if self.workspace_definitions.len() > 0 {
            let ghost defs = self.workspace_definitions@;
            let ghost wanted = |d: WorkspaceDefinition|
                crate::model::manager_model::defined_on(d, display);
            let ghost name_of = |d: WorkspaceDefinition| d.name@;
            let mut i: usize = 0;
            while i < self.workspace_definitions.len()
                invariant
                    i <= defs.len(),
                    defs == self.workspace_definitions@,
                    wanted == |d: WorkspaceDefinition|
                        crate::model::manager_model::defined_on(d, display),
                    name_of == |d: WorkspaceDefinition| d.name@,
                    spelled(names@) == defs.take(i as int).filter(wanted).map_values(name_of),
                decreases defs.len() - i,
            {
                let definition = &self.workspace_definitions[i];
                proof {
                    crate::common::sequences::lemma_filter_step(defs, i as int, wanted);
                    lemma_spelled_push(names@, definition.name);
                    assert(defs.take(i as int).filter(wanted).push(*definition).map_values(name_of)
                        =~= defs.take(i as int).filter(wanted).map_values(name_of).push(
                        definition.name@,
                    ));
                }
                let here = match definition.display {
                    Some(target) => target == display,
                    None => true,
                };
                if here {
                    names.push(definition.name.clone());
                }
                i += 1;
            }
            assert(defs.take(defs.len() as int) =~= defs);
            let limit = if self.max_workspaces < 1 {
                1
            } else {
                self.max_workspaces
            };
            if names.len() == 0 {
                assert(spelled(names@).len() == 0);
                names.push(numbered_name_text(1));
                assert(spelled(names@) =~= self@.settings.planned_names(display));
            } else {
                let ghost all = names@;
                let ghost chosen = defs.filter(wanted);
                assert(spelled(all).len() == all.len());
                assert(chosen.map_values(name_of).len() == chosen.len());
                if names.len() > limit {
                    names.truncate(limit);
                }
                assert(forall|j: int|
                    0 <= j < all.len() ==> (#[trigger] all[j])@ == spelled(all)[j]);
                assert(self@.settings.definitions_on(display) =~= chosen);
                assert(spelled(names@) =~= self@.settings.planned_names(display));
            }
        } else {
            let at_least = if self.default_workspace_count < 1 {
                1
            } else {
                self.default_workspace_count
            };
            let count = if at_least > self.max_workspaces {
                self.max_workspaces
            } else {
                at_least
            };
            let mut i: usize = 0;
            while i < count
                invariant
                    i <= count,
                    self.workspace_definitions@.len() == 0,
                    count == self@.settings.planned_names(display).len(),
                    spelled(names@) == self@.settings.planned_names(display).take(i as int),
                decreases count - i,
            {
                let name = if i < self.default_workspace_names.len() {
                    self.default_workspace_names[i].clone()
                } else {
                    numbered_name_text(i as u64 + 1)
                };
                assert(name@ == self@.settings.planned_names(display)[i as int]);
                proof {
                    lemma_spelled_push(names@, name);
                }
                names.push(name);
                i += 1;
                assert(spelled(names@) =~= self@.settings.planned_names(display).take(i as int));
            }
            assert(spelled(names@) =~= self@.settings.planned_names(display));
        }
        names
    }

    /// Puts a display in use.
    pub fn ensure_display_initialized(&mut self, display: DisplayId)
        requires
            old(self)@.fits(display, 0),
        ensures
            old(self)@.initializes(final(self)@, display),
            final(self)@.workspaces.len() == old(self)@.workspaces.len() + old(self)@.pending(
                display,
            ),
    {
        if self.workspaces_by_display.contains_key(&display) {
            return;
        }
        let names = self.plan_names(display);
        let ghost planned = self@.settings.planned_names(display);
        let mut ids: Vec<VirtualWorkspaceId> = Vec::new();
        let mut i: usize = 0;
        proof {
            lemma_models_len(self.workspaces);
            assert(spelled(names@).len() == names@.len());
            assert(workspace_models(self.workspaces).dom() =~= workspace_models(
                self.workspaces,
            ).dom().union(ids@.to_set()));
        }
        while i < names.len()
            invariant
                i <= names@.len(),
                ids@.len() == i,
                spelled(names@) == planned,
                planned.len() == names@.len(),
                *self == (VirtualWorkspaceManager { workspaces: self.workspaces, ..*old(self) }),
                crate::model::slots::slot_contents(self.workspaces).len() == old(
                    self,
                )@.workspaces.len() + i,
                old(self)@.workspaces.len() + planned.len() < u32::MAX || planned.len() == 0,
                crate::model::manager_model::grown(
                    old(self)@.workspaces,
                    workspace_models(self.workspaces),
                    ids@,
                    planned.take(i as int),
                    display,
                ),
            decreases names@.len() - i,
        {
            let ghost before = workspace_models(self.workspaces);
            let ghost before_ids = ids@;
            let workspace = VirtualWorkspace::new(names[i].clone(), display);
            let ghost model = workspace@;
            let id = self.workspaces.insert(workspace);
            ids.push(id);
            i += 1;
            proof {
                let after = workspace_models(self.workspaces);
                assert(after =~= before.insert(id, model));
                assert(model == WorkspaceModel::fresh(planned[i - 1], display));
                assert(!before_ids.contains(id)) by {
                    if before_ids.contains(id) {
                        assert(before_ids.to_set().contains(id));
                        assert(before.contains_key(id));
                    }
                }
                assert forall|x: VirtualWorkspaceId| ids@.to_set().contains(x) <==> (
                before_ids.to_set().contains(x) || x == id) by {
                    if before_ids.contains(x) {
                        let j = choose|j: int| 0 <= j < before_ids.len() && before_ids[j] == x;
                        assert(ids@[j] == x);
                    }
                    assert(ids@[i - 1] == id);
                }
                assert forall|x: VirtualWorkspaceId| after.dom().contains(x) <==> old(
                    self,
                )@.workspaces.dom().union(ids@.to_set()).contains(x) by {
                    assert(before.dom().contains(x) <==> old(self)@.workspaces.dom().union(
                        before_ids.to_set(),
                    ).contains(x));
                }
                assert(after.dom() =~= old(self)@.workspaces.dom().union(ids@.to_set()));
                assert forall|j: int| 0 <= j < ids@.len() implies after[#[trigger] ids@[j]]
                    == WorkspaceModel::fresh(planned.take(i as int)[j], display) by {
                    if j < i - 1 {
                        assert(ids@[j] == before_ids[j]);
                        assert(before_ids.contains(ids@[j]));
                        assert(planned.take(i - 1)[j] == planned.take(i as int)[j]);
                    }
                }
                assert forall|x: VirtualWorkspaceId| #[trigger]
                    old(self)@.workspaces.contains_key(x) implies after[x] == old(
                    self,
                )@.workspaces[x] by {
                    assert(before.contains_key(x));
                }
                assert forall|j: int| 0 <= j < ids@.len() implies !old(
                    self,
                )@.workspaces.contains_key(#[trigger] ids@[j]) by {
                    if j < i - 1 {
                        assert(ids@[j] == before_ids[j]);
                    } else {
                        assert(!before.contains_key(id));
                        assert(before.dom() == old(self)@.workspaces.dom().union(
                            before_ids.to_set(),
                        ));
                    }
                }
                assert(ids@.no_duplicates());
            }
        }
        proof {
            assert(planned.take(i as int) =~= planned);
        }
        let ghost all = ids@;
        let first = if ids.len() > 0 {
            Some(ids[0])
        } else {
            None
        };
        self.workspaces_by_display.insert(display, ids);
        if let Some(first_id) = first {
            self.active_workspace_per_display.insert(display, (None, first_id));
        }
        proof {
            assert(self@.by_display =~= old(self)@.by_display.insert(display, all));
            assert(self@.ids_on(display) == all);
            lemma_models_len(self.workspaces);
        }
    }

    /// The workspace under an id.
    fn workspace(&self, id: VirtualWorkspaceId) -> (r: Option<&VirtualWorkspace>)
        ensures
            match r {
                Some(w) => self@.workspaces.contains_key(id) && w@ == self@.workspaces[id],
                None => !self@.workspaces.contains_key(id),
            },
    {
        self.workspaces.get(id)
    }

    /// Whether the workspace exists and is one of the display.
    fn is_on(&self, display: DisplayId, id: VirtualWorkspaceId) -> (r: bool)
        ensures
            r == self@.owns(display, id),
    {
        match self.workspace(id) {
            Some(w) => w.display() == display,
            None => false,
        }
    }

    /// The ids of the display's workspaces, in order.
    pub fn ids(&self, display: DisplayId) -> (r: Vec<VirtualWorkspaceId>)
        ensures
            r@ == self@.ids_on(display),
    {
        match self.workspaces_by_display.get(&display) {
            Some(v) => {
                let mut r: Vec<VirtualWorkspaceId> = Vec::new();
                let mut i: usize = 0;
                while i < v.len()
                    invariant
                        i <= v@.len(),
                        r@ == v@.take(i as int),
                    decreases v@.len() - i,
                {
                    r.push(v[i]);
                    i += 1;
                    assert(r@ =~= v@.take(i as int));
                }
                assert(r@ =~= v@);
                r
            },
            None => Vec::new(),
        }
    }

    /// Records the space that a display shows.
    pub fn update_display_space_mapping(&mut self, display: DisplayId, space: SpaceId)
        ensures
            final(self)@ == old(self)@.with_space(display, space),
    {
        let ids = self.ids(display);
        self.display_to_space.insert(display, space);
        let ghost start = *self;
        let ghost set_on = |shown: Seq<VirtualWorkspaceId>|
            start@.workspaces.map_entries(
                |id: VirtualWorkspaceId, w: WorkspaceModel|
                    if shown.contains(id) {
                        WorkspaceModel { space: Some(space), ..w }
                    } else {
                        w
                    },
            );
        let mut i: usize = 0;
        assert(self@.workspaces =~= set_on(ids@.take(0)));
        while i < ids.len()
            invariant
                i <= ids@.len(),
                *self == (VirtualWorkspaceManager { workspaces: self.workspaces, ..start }),
                set_on == |shown: Seq<VirtualWorkspaceId>|
                    start@.workspaces.map_entries(
                        |id: VirtualWorkspaceId, w: WorkspaceModel|
                            if shown.contains(id) {
                                WorkspaceModel { space: Some(space), ..w }
                            } else {
                                w
                            },
                    ),
                self@.workspaces == set_on(ids@.take(i as int)),
            decreases ids@.len() - i,
        {
            let ghost before = self@.workspaces;
            let id = ids[i];
            if let Some(workspace) = self.workspaces.get_mut(id) {
                workspace.set_space(space);
            }
            i += 1;
            proof {
                crate::common::sequences::lemma_take_step(ids@, i - 1);
                if before.contains_key(id) {
                    assert(self@.workspaces =~= before.insert(
                        id,
                        WorkspaceModel { space: Some(space), ..before[id] },
                    ));
                } else {
                    assert(self@.workspaces =~= before);
                }
                assert(self@.workspaces =~= set_on(ids@.take(i as int)));
            }
        }
        proof {
            assert(ids@.take(ids@.len() as int) =~= ids@);
            assert(self@ =~= old(self)@.with_space(display, space));
        }
    }

    /// The space that a display shows.
    pub fn get_space_for_display(&self, display: DisplayId) -> (r: Option<SpaceId>)
        ensures
            r == self@.display_spaces.get(display),
    {
        match self.display_to_space.get(&display) {
            Some(space) => Some(*space),
            None => None,
        }
    }

    /// A display that shows the space. Which one it is when there are several is left open.
    pub fn get_display_for_space(&self, space: SpaceId) -> (r: Option<DisplayId>)
        ensures
            self@.finds_space(space, r),
    {
        let displays = map_keys(&self.display_to_space);
        let mut i: usize = 0;
        while i < displays.len()
            invariant
                i <= displays@.len(),
                forall|d: DisplayId| #[trigger]
                    displays@.contains(d) <==> self.display_to_space@.contains_key(d),
                forall|j: int|
                    0 <= j < i ==> self.display_to_space@[#[trigger] displays@[j]] != space,
            decreases displays@.len() - i,
        {
            assert(displays@.contains(displays@[i as int]));
            if let Some(found) = self.display_to_space.get(&displays[i]) {
                if *found == space {
                    return Some(displays[i]);
                }
            }
            i += 1;
        }
        proof {
            if self@.display_spaces.contains_value(space) {
                let d = choose|d: DisplayId| #[trigger]
                    self@.display_spaces.contains_key(d) && self@.display_spaces[d] == space;
                assert(displays@.contains(d));
                let j = choose|j: int| 0 <= j < displays@.len() && displays@[j] == d;
                assert(self.display_to_space@[displays@[j]] != space);
            }
        }
        None
    }

    /// Adds a workspace to a display, under a made-up name when none is given.
    pub fn create_workspace(&mut self, display: DisplayId, name: Option<String>) -> (r: Result<
        VirtualWorkspaceId,
        WorkspaceError,
    >)
        requires
            old(self)@.fits(display, 1),
            name is None ==> old(self)@.counter < usize::MAX,
        ensures
            old(self)@.creates(
                final(self)@,
                display,
                spelled_if_any(name),
                r,
            ),
    {
        self.ensure_display_initialized(display);
        let ghost ready = self@;
        let ghost wanted = spelled_if_any(name);
        assert(old(self)@.initializes(ready, display));
        proof {
            lemma_models_len(self.workspaces);
        }
        let mut ids = self.ids(display);
        if ids.len() >= self.max_workspaces {
            let mut message = "Maximum workspace limit (".to_string();
            let limit = decimal_text(self.max_workspaces as u64);
            let shown = decimal_text(display as u64);
            message.append(limit.as_str());
            message.append(") reached for display ");
            message.append(shown.as_str());
            return Err(WorkspaceError::InconsistentState(message));
        }
        let name = match name {
            Some(n) => n,
            None => {
                let made_up = numbered_name_text(self.workspace_counter as u64);
                self.workspace_counter += 1;
                made_up
            },
        };
        let mut workspace = VirtualWorkspace::new(name, display);
        if let Some(space) = self.display_to_space.get(&display) {
            workspace.set_space(*space);
        }
        let ghost model = workspace@;
        let id = self.workspaces.insert(workspace);
        ids.push(id);
        let ghost all = ids@;
        self.workspaces_by_display.insert(display, ids);
        proof {
            assert(self@.workspaces =~= ready.workspaces.insert(id, model));
            assert(self@.by_display =~= ready.by_display.insert(display, all));
            assert(self@ =~= ready.with_workspace(display, id, wanted));
        }
        Ok(id)
    }

    /// The workspace that the display showed before.
    pub fn last_workspace(&self, display: DisplayId) -> (r: Option<VirtualWorkspaceId>)
        ensures
            r == self@.last_on(display),
    {
        match self.active_workspace_per_display.get(&display) {
            Some(shown) => shown.0,
            None => None,
        }
    }

    /// The workspace that the display shows.
    pub fn active_workspace(&self, display: DisplayId) -> (r: Option<VirtualWorkspaceId>)
        ensures
            r == self@.active_on(display),
    {
        match self.active_workspace_per_display.get(&display) {
            Some(shown) => Some(shown.1),
            None => None,
        }
    }

    /// Whether a switch to the workspace that is shown leads back to the one before.
    pub fn workspace_auto_back_and_forth(&self) -> (r: bool)
        ensures
            r == self@.settings.auto_back_and_forth,
    {
        self.workspace_auto_back_and_forth
    }

    /// Shows a workspace of the display on it.
    pub fn set_active_workspace(&mut self, display: DisplayId, workspace_id: VirtualWorkspaceId) -> (r:
        bool)
        ensures
            old(self)@.shows_own(final(self)@, display, workspace_id, r),
    {
        let active = self.active_workspace(display);
        if self.is_on(display, workspace_id) {
            self.active_workspace_per_display.insert(display, (active, workspace_id));
            true
        } else {
            false
        }
    }

    fn is_offered(&self, id: VirtualWorkspaceId, skip_empty: Option<bool>) -> (r: bool)
        ensures
            r == self@.offered(id, skip_empty),
    {
        match self.workspace(id) {
            Some(w) => !(skip_empty == Some(true) && w.is_empty()),
            None => false,
        }
    }

    /// The workspaces of the display that exist, without the empty ones where that is asked for.
    fn filtered_workspace_ids(&self, display: DisplayId, skip_empty: Option<bool>) -> (r: Vec<
        VirtualWorkspaceId,
    >)
        ensures
            r@ == self@.offered_ids(display, skip_empty),
    {
        let ids = self.ids(display);
        let ghost wanted = |id: VirtualWorkspaceId| self@.offered(id, skip_empty);
        let mut r: Vec<VirtualWorkspaceId> = Vec::new();
        let mut i: usize = 0;
        reveal(Seq::filter);
        while i < ids.len()
            invariant
                i <= ids@.len(),
                wanted == |id: VirtualWorkspaceId| self@.offered(id, skip_empty),
                r@ == ids@.take(i as int).filter(wanted),
            decreases ids@.len() - i,
        {
            proof {
                crate::common::sequences::lemma_filter_step(ids@, i as int, wanted);
            }
            if self.is_offered(ids[i], skip_empty) {
                r.push(ids[i]);
            }
            i += 1;
        }
        assert(ids@.take(ids@.len() as int) =~= ids@);
        r
    }

    /// Where a step from a workspace leads.
    pub fn step_workspace(
        &self,
        display: DisplayId,
        current: VirtualWorkspaceId,
        skip_empty: Option<bool>,
        dir: Direction,
    ) -> (r: Option<VirtualWorkspaceId>)
        ensures
            self@.steps_to(display, current, skip_empty, dir, r),
    {
        let skipping = skip_empty == Some(true);
        let base = if skipping {
            self.filtered_workspace_ids(display, Some(true))
        } else {
            self.ids(display)
        };
        if base.len() == 0 {
            return None;
        }
        if let Some(position) = first_position(&base, current) {
            return Some(base[dir.step(position, base.len())]);
        }
        let all = self.filtered_workspace_ids(display, Some(false));
        let start = match first_position(&all, current) {
            Some(start) => start,
            None => {
                return None;
            },
        };
        proof {
            crate::common::sequences::lemma_filter_contains(
                self@.ids_on(display),
                |id: VirtualWorkspaceId| self@.offered(id, Some(false)),
                current,
            );
        }
        assert(skipping);
        let len = all.len();
        let mut i: usize = dir.step(start, len);
        let mut n: usize = 1;
        loop
            invariant
                skip_empty == Some(true),
                self@.ring(display, skip_empty).len() > 0,
                !self@.ring(display, skip_empty).contains(current),
                all@ == self@.offered_ids(display, Some(false)),
                all@.contains(current),
                all@.index_of_first(current) == Some(start as int),
                1 <= n <= len,
                len == all@.len(),
                i < len,
                i == dir.reach(start as int, n as int, len as int),
                forall|m: int|
                    1 <= m < n ==> !self@.offered(
                        all@[#[trigger] dir.reach(start as int, m, len as int)],
                        Some(true),
                    ),
            ensures
                forall|m: int|
                    1 <= m <= len ==> !self@.offered(
                        all@[#[trigger] dir.reach(start as int, m, len as int)],
                        Some(true),
                    ),
            decreases len - n,
        {
            if self.is_offered(all[i], Some(true)) {
                assert(self@.walks_to(all@, start as int, dir, Some(all@[i as int])));
                return Some(all[i]);
            }
            if n == len {
                break;
            }
            proof {
                lemma_reach_step(dir, start as int, n as int, len as int);
            }
            i = dir.step(i, len);
            n += 1;
        }
        None
    }

    /// The workspace after `current`; the first comes after the last.
    pub fn next_workspace(
        &self,
        display: DisplayId,
        current: VirtualWorkspaceId,
        skip_empty: Option<bool>,
    ) -> (r: Option<VirtualWorkspaceId>)
        ensures
            self@.steps_to(display, current, skip_empty, Direction::Right, r),
    {
        self.step_workspace(display, current, skip_empty, Direction::Right)
    }

    /// The workspace before `current`; the last comes before the first.
    pub fn prev_workspace(
        &self,
        display: DisplayId,
        current: VirtualWorkspaceId,
        skip_empty: Option<bool>,
    ) -> (r: Option<VirtualWorkspaceId>)
        ensures
            self@.steps_to(display, current, skip_empty, Direction::Left, r),
    {
        self.step_workspace(display, current, skip_empty, Direction::Left)
    }

    /// Takes a window out of its workspace.
    fn drop_assignment(&mut self, display: DisplayId, window_id: WindowId)
        requires
            old(self)@.assigned.contains_key((display, window_id)),
        ensures
            final(self)@ == old(self)@.evicted(set![(display, window_id)]),
    {
        let ghost before = self@;
        let ghost gone = set![(display, window_id)];
        if let Some(id) = self.window_to_workspace.remove(&(display, window_id)) {
            if let Some(workspace) = self.workspaces.get_mut(id) {
                workspace.remove_window(window_id);
            }
            self.window_rule_floating.remove(&(display, window_id));
            proof {
                assert forall|x: VirtualWorkspaceId| #[trigger]
                    before.workspaces.contains_key(x) implies self@.workspaces[x]
                    == before.workspaces[x].without(before.leaving(gone, x)) by {
                    if x == id {
                        assert forall|w: WindowId| before.leaving(gone, x).contains(w) <==> w
                            == window_id by {
                            assert(gone.contains((display, window_id)));
                        }
                        assert(before.leaving(gone, x) =~= set![window_id]);
                    } else {
                        assert(before.leaving(gone, x) =~= Set::<WindowId>::empty());
                        assert(before.workspaces[x].without(Set::<WindowId>::empty())
                            =~= before.workspaces[x]);
                    }
                }
                assert(self@.workspaces =~= before.evicted(gone).workspaces);
                assert(self@.assigned =~= before.evicted(gone).assigned);
                assert(self@.rule_floating =~= before.evicted(gone).rule_floating);
            }
        }
    }

    /// Takes windows out of their workspaces.
    fn drop_assignments(&mut self, keys: &Vec<(DisplayId, WindowId)>)
        requires
            keys@.no_duplicates(),
            forall|i: int| 0 <= i < keys@.len() ==> old(self)@.assigned.contains_key(keys@[i]),
        ensures
            final(self)@ == old(self)@.evicted(keys@.to_set()),
    {
        let mut i: usize = 0;
        proof {
            assert(keys@.take(0).to_set() =~= Set::<(DisplayId, WindowId)>::empty());
            lemma_evict_none(self@);
        }
        while i < keys.len()
            invariant
                i <= keys@.len(),
                keys@.no_duplicates(),
                forall|j: int| 0 <= j < keys@.len() ==> old(self)@.assigned.contains_key(keys@[j]),
                self@ == old(self)@.evicted(keys@.take(i as int).to_set()),
            decreases keys@.len() - i,
        {
            let ghost seen = keys@.take(i as int);
            let ghost k = keys@[i as int];
            proof {
                crate::common::sequences::lemma_take_step(keys@, i as int);
                lemma_evict_more(old(self)@, seen.to_set(), k);
            }
            self.drop_assignment(keys[i].0, keys[i].1);
            i += 1;
        }
        assert(keys@.take(keys@.len() as int) =~= keys@);
    }

    /// The display of a workspace that the window is in.
    fn display_of(&self, window_id: WindowId) -> (r: Option<DisplayId>)
        ensures
            match r {
                Some(d) => self@.assigned.contains_key((d, window_id)),
                None => !self@.is_assigned(window_id),
            },
    {
        let keys = self.window_to_workspace.keys();
        let mut i: usize = 0;
        while i < keys.len()
            invariant
                i <= keys@.len(),
                forall|k: (DisplayId, WindowId)| #[trigger]
                    keys@.contains(k) <==> self@.assigned.contains_key(k),
                forall|j: int| 0 <= j < i ==> (#[trigger] keys@[j]).1 != window_id,
            decreases keys@.len() - i,
        {
            assert(keys@.contains(keys@[i as int]));
            if keys[i].1 == window_id {
                return Some(keys[i].0);
            }
            i += 1;
        }
        proof {
            if self@.is_assigned(window_id) {
                let d = choose|d: DisplayId| #[trigger]
                    self@.assigned.contains_key((d, window_id));
                assert(keys@.contains((d, window_id)));
                let j = choose|j: int| 0 <= j < keys@.len() && keys@[j] == (d, window_id);
                assert(keys@[j].1 != window_id);
            }
        }
        None
    }

    /// Moves a window into a workspace of the display. A workspace that does not exist or is
    /// one of another display is refused.
    pub fn assign_window_to_workspace(
        &mut self,
        display: DisplayId,
        window_id: WindowId,
        workspace_id: VirtualWorkspaceId,
    ) -> (r: bool)
        ensures
            old(self)@.moves_to_own(final(self)@, display, window_id, workspace_id, r),
            final(self)@.workspaces.dom() == old(self)@.workspaces.dom(),
    {
        if !self.is_on(display, workspace_id) {
            return false;
        }
        if let Some(existing) = self.display_of(window_id) {
            self.drop_assignment(existing, window_id);
        }
        let ghost before = self@;
        assert(before.workspaces.dom() =~= old(self)@.workspaces.dom());
        if let Some(workspace) = self.workspaces.get_mut(workspace_id) {
            workspace.add_window(window_id);
            self.window_to_workspace.insert((display, window_id), workspace_id);
            proof {
                assert(self@.workspaces =~= before.placed(
                    display,
                    window_id,
                    workspace_id,
                ).workspaces);
                assert(self@.workspaces.dom() =~= before.workspaces.dom());
            }
            true
        } else {
            false
        }
    }

    /// The workspace of a window on a display.
    pub fn workspace_for_window(&self, display: DisplayId, window_id: WindowId) -> (r: Option<
        VirtualWorkspaceId,
    >)
        ensures
            r == self@.assigned.get((display, window_id)),
    {
        match self.window_to_workspace.get(&(display, window_id)) {
            Some(id) => Some(*id),
            None => None,
        }
    }

    /// Whether a rule lets the window float on the display.
    pub fn floats_by_rule(&self, display: DisplayId, window_id: WindowId) -> (r: bool)
        ensures
            r == self@.lets_float(display, window_id),
    {
        match self.window_rule_floating.get(&(display, window_id)) {
            Some(floating) => *floating,
            None => false,
        }
    }

    /// The assignments with their workspaces, each once.
    pub fn assignments(&self) -> (r: Vec<((DisplayId, WindowId), VirtualWorkspaceId)>)
        ensures
            crate::common::sequences::enumerates(
                r@.map_values(|e: ((DisplayId, WindowId), VirtualWorkspaceId)| e.0),
                self@.assigned.dom(),
            ),
            forall|i: int| 0 <= i < r@.len() ==> self@.assigned[(#[trigger] r@[i]).0] == r@[i].1,
    {
        let keys = self.window_to_workspace.keys();
        let ghost key = |e: ((DisplayId, WindowId), VirtualWorkspaceId)| e.0;
        let mut r: Vec<((DisplayId, WindowId), VirtualWorkspaceId)> = Vec::new();
        let mut i: usize = 0;
        while i < keys.len()
            invariant
                i <= keys@.len(),
                key == |e: ((DisplayId, WindowId), VirtualWorkspaceId)| e.0,
                forall|k: (DisplayId, WindowId)| #[trigger]
                    keys@.contains(k) <==> self@.assigned.contains_key(k),
                r@.map_values(key) == keys@.take(i as int),
                forall|j: int|
                    0 <= j < r@.len() ==> self@.assigned[(#[trigger] r@[j]).0] == r@[j].1,
            decreases keys@.len() - i,
        {
            assert(keys@.contains(keys@[i as int]));
            if let Some(id) = self.window_to_workspace.get(&keys[i]) {
                assert(r@.push((keys@[i as int], *id)).map_values(key) =~= r@.map_values(key).push(
                    keys@[i as int],
                ));
                r.push((keys[i], *id));
            }
            assert(keys@.take(i as int).push(keys@[i as int]) =~= keys@.take(i + 1));
            i += 1;
        }
        assert(keys@.take(keys@.len() as int) =~= keys@);
        assert(keys@.to_set() =~= self@.assigned.dom());
        r
    }

    /// Takes a window out of its workspaces.
    pub fn remove_window(&mut self, window_id: WindowId)
        ensures
            final(self)@ == old(self)@.evicted(
                old(self)@.assignments_of(|w: WindowId| w == window_id),
            ),
    {
        let who = WindowChoice::One(window_id);
        self.evict(&who);
        assert(who.pred() =~= |w: WindowId| w == window_id);
    }

    /// Takes the windows of a process out of their workspaces.
    pub fn remove_windows_for_app(&mut self, pid: pid_t)
        ensures
            final(self)@ == old(self)@.evicted(
                old(self)@.assignments_of(|w: WindowId| w.pid == pid),
            ),
    {
        let who = WindowChoice::OfProcess(pid);
        self.evict(&who);
        assert(who.pred() =~= |w: WindowId| w.pid == pid);
    }

    /// Takes some windows out of their workspaces.
    fn evict(&mut self, who: &WindowChoice)
        ensures
            final(self)@ == old(self)@.evicted(old(self)@.assignments_of(who.pred())),
    {
        let all = self.window_to_workspace.keys();
        let ghost pred = who.pred();
        let mut keys: Vec<(DisplayId, WindowId)> = Vec::new();
        let mut i: usize = 0;
        while i < all.len()
            invariant
                i <= all@.len(),
                pred == who.pred(),
                keys@ == all@.take(i as int).filter(|k: (DisplayId, WindowId)| pred(k.1)),
            decreases all@.len() - i,
        {
            proof {
                crate::common::sequences::lemma_filter_step(
                    all@,
                    i as int,
                    |k: (DisplayId, WindowId)| pred(k.1),
                );
            }
            if who.picks(all[i].1) {
                keys.push(all[i]);
            }
            i += 1;
        }
        proof {
            assert(all@.take(all@.len() as int) =~= all@);
            lemma_assignments_listed(self@, all@, pred);
        }
        self.drop_assignments(&keys);
    }

    /// The windows of the workspace that the display shows.
    pub fn windows_in_active_workspace(&self, display: DisplayId) -> (r: Vec<WindowId>)
        ensures
            match self@.active_on(display) {
                Some(id) if self@.workspaces.contains_key(id) => crate::common::sequences::enumerates(
                    r@,
                    self@.workspaces[id].windows,
                ),
                _ => r@.len() == 0,
            },
    {
        if let Some(id) = self.active_workspace(display) {
            if let Some(workspace) = self.workspace(id) {
                return workspace.windows();
            }
        }
        Vec::new()
    }

    /// The windows of the display's workspaces that are not shown. A window comes as often as
    /// there are such workspaces that hold it; the order is left open.
    pub fn windows_in_inactive_workspaces(&self, display: DisplayId) -> (r: Vec<WindowId>)
        ensures
            self@.workspaces.dom().finite(),
            forall|w: WindowId| #[trigger]
                r@.to_multiset().count(w) == self@.hidden_with(display, w).len(),
    {
        let active = self.active_workspace(display);
        let ids = self.workspaces.keys();
        let mut r: Vec<WindowId> = Vec::new();
        let mut i: usize = 0;
        proof {
            assert forall|w: WindowId|
                self@.hidden_with(display, w).intersect(ids@.take(0).to_set()).finite()
                    && #[trigger] r@.to_multiset().count(w) == self@.hidden_with(
                    display,
                    w,
                ).intersect(ids@.take(0).to_set()).len() by {
                assert(self@.hidden_with(display, w).intersect(ids@.take(0).to_set())
                    =~= Set::<VirtualWorkspaceId>::empty());
                r@.to_multiset_ensures();
            }
        }
        while i < ids.len()
            invariant
                i <= ids@.len(),
                active == self@.active_on(display),
                ids@.no_duplicates(),
                forall|w: WindowId|
                    self@.hidden_with(display, w).intersect(ids@.take(i as int).to_set()).finite()
                        && #[trigger] r@.to_multiset().count(w) == self@.hidden_with(
                        display,
                        w,
                    ).intersect(ids@.take(i as int).to_set()).len(),
            decreases ids@.len() - i,
        {
            let id = ids[i];
            let ghost before = r@;
            let ghost seen = ids@.take(i as int).to_set();
            let ghost mut added: Seq<WindowId> = Seq::empty();
            if self.is_on(display, id) && Some(id) != active {
                if let Some(workspace) = self.workspace(id) {
                    let mut windows = workspace.windows();
                    proof {
                        added = windows@;
                    }
                    r.append(&mut windows);
                }
            }
            i += 1;
            proof {
                crate::common::sequences::lemma_take_step(ids@, i - 1);
                assert(r@ =~= before + added);
                vstd::seq_lib::lemma_multiset_commutative(before, added);
                added.lemma_multiset_has_no_duplicates();
                added.to_multiset_ensures();
                assert forall|w: WindowId|
                    self@.hidden_with(display, w).intersect(
                        ids@.take(i as int).to_set(),
                    ).finite() && #[trigger] r@.to_multiset().count(w) == self@.hidden_with(
                        display,
                        w,
                    ).intersect(ids@.take(i as int).to_set()).len() by {
                    let hidden = self@.hidden_with(display, w);
                    assert(before.to_multiset().count(w) == hidden.intersect(seen).len());
                    assert(added.contains(w) <==> added.to_multiset().count(w) > 0);
                    assert(added.contains(w) <==> added.to_set().contains(w));
                    if hidden.contains(id) {
                        assert(added.to_multiset().contains(w));
                        assert(hidden.intersect(seen.insert(id)) =~= hidden.intersect(seen).insert(
                            id,
                        ));
                    } else {
                        assert(!added.contains(w));
                        assert(hidden.intersect(seen.insert(id)) =~= hidden.intersect(seen));
                    }
                }
            }
        }
        proof {
            assert(ids@.take(ids@.len() as int) =~= ids@);
            vstd::seq_lib::seq_to_set_is_finite(ids@);
            assert(self@.workspaces.dom() =~= ids@.to_set());
            assert forall|w: WindowId| #[trigger]
                r@.to_multiset().count(w) == self@.hidden_with(display, w).len() by {
                assert(self@.hidden_with(display, w).intersect(ids@.to_set()) =~= self@.hidden_with(
                    display,
                    w,
                ));
            }
        }
        r
    }

    /// The windows of a workspace of the display.
    pub fn windows_in_workspace(&self, display: DisplayId, workspace_id: VirtualWorkspaceId) -> (r:
        Vec<WindowId>)
        ensures
            self@.lists_windows(display, workspace_id, r@),
    {
        match self.workspace_info(display, workspace_id) {
            Some(workspace) => workspace.windows(),
            None => Vec::new(),
        }
    }

    /// Records the window of a workspace that last had the focus.
    pub fn set_last_focused_window(
        &mut self,
        display: DisplayId,
        workspace_id: VirtualWorkspaceId,
        window_id: Option<WindowId>,
    )
        ensures
            final(self)@ == old(self)@.with_focus(display, workspace_id, window_id),
    {
        if self.is_on(display, workspace_id) {
            if let Some(workspace) = self.workspaces.get_mut(workspace_id) {
                workspace.set_last_focused(window_id);
            }
            assert(self@.workspaces =~= old(self)@.workspaces.insert(
                workspace_id,
                WorkspaceModel { last_focused: window_id, ..old(self)@.workspaces[workspace_id] },
            ));
        }
    }

    /// The window of a workspace that last had the focus.
    pub fn last_focused_window(&self, display: DisplayId, workspace_id: VirtualWorkspaceId) -> (r:
        Option<WindowId>)
        ensures
            r == self@.focus_in(display, workspace_id),
    {
        match self.workspace_info(display, workspace_id) {
            Some(workspace) => workspace.last_focused(),
            None => None,
        }
    }

    /// A workspace of the display.
    pub fn workspace_info(&self, display: DisplayId, workspace_id: VirtualWorkspaceId) -> (r: Option<
        &VirtualWorkspace,
    >)
        ensures
            match r {
                Some(w) => self@.owns(display, workspace_id) && w@ == self@.workspaces[workspace_id],
                None => !self@.owns(display, workspace_id),
            },
    {
        if self.is_on(display, workspace_id) {
            self.workspace(workspace_id)
        } else {
            None
        }
    }

    /// Gives a workspace of the display another name.
    pub fn rename_workspace(
        &mut self,
        display: DisplayId,
        workspace_id: VirtualWorkspaceId,
        new_name: String,
    ) -> (r: bool)
        ensures
            old(self)@.renames_own(final(self)@, display, workspace_id, new_name@, r),
    {
        if !self.is_on(display, workspace_id) {
            return false;
        }
        let ghost name = new_name@;
        if let Some(workspace) = self.workspaces.get_mut(workspace_id) {
            workspace.rename(new_name);
        }
        assert(self@.workspaces =~= old(self)@.workspaces.insert(
            workspace_id,
            WorkspaceModel { name, ..old(self)@.workspaces[workspace_id] },
        ));
        true
    }

    /// The workspaces of the display with their names, in order.
    fn listed(&self, display: DisplayId) -> (r: Vec<(VirtualWorkspaceId, String)>)
        ensures
            r@.map_values(|e: (VirtualWorkspaceId, String)| (e.0, e.1@)) == self@.listing(display),
            r@.len() == self@.listing(display).len(),
    {
        let ids = self.ids(display);
        let ghost present = |id: VirtualWorkspaceId| self@.workspaces.contains_key(id);
        let ghost entry = |id: VirtualWorkspaceId| (id, self@.workspaces[id].name);
        let ghost shown = |e: (VirtualWorkspaceId, String)| (e.0, e.1@);
        let mut r: Vec<(VirtualWorkspaceId, String)> = Vec::new();
        let mut i: usize = 0;
        reveal(Seq::filter);
        assert(r@.map_values(shown) =~= ids@.take(0).filter(present).map_values(entry));
        while i < ids.len()
            invariant
                i <= ids@.len(),
                present == |id: VirtualWorkspaceId| self@.workspaces.contains_key(id),
                entry == |id: VirtualWorkspaceId| (id, self@.workspaces[id].name),
                shown == |e: (VirtualWorkspaceId, String)| (e.0, e.1@),
                r@.map_values(shown) == ids@.take(i as int).filter(present).map_values(entry),
            decreases ids@.len() - i,
        {
            let ghost kept = ids@.take(i as int).filter(present);
            let id = ids[i];
            proof {
                crate::common::sequences::lemma_filter_step(ids@, i as int, present);
                assert(kept.push(id).map_values(entry) =~= kept.map_values(entry).push(entry(id)));
            }
            if let Some(workspace) = self.workspace(id) {
                let name = workspace.name();
                assert(r@.push((id, name)).map_values(shown) =~= r@.map_values(shown).push(
                    shown((id, name)),
                ));
                r.push((id, name));
            }
            i += 1;
        }
        assert(ids@.take(ids@.len() as int) =~= ids@);
        assert(r@.map_values(shown).len() == r@.len());
        assert(self@.listing(display) =~= ids@.filter(present).map_values(entry));
        r
    }

    /// Puts a display in use and lists its workspaces with their names, in order.
    pub fn list_workspaces(&mut self, display: DisplayId) -> (r: Vec<(VirtualWorkspaceId, String)>)
        requires
            old(self)@.fits(display, 0),
        ensures
            old(self)@.initializes(final(self)@, display),
            final(self)@.workspaces.len() == old(self)@.workspaces.len() + old(self)@.pending(
                display,
            ),
            r@.map_values(|e: (VirtualWorkspaceId, String)| (e.0, e.1@)) == final(self)@.listing(
                display,
            ),
    {
        self.ensure_display_initialized(display);
        self.listed(display)
    }

    /// The displays in use, in rising order.
    fn displays_in_use(&self) -> (r: Vec<DisplayId>)
        ensures
            crate::model::manager_model::rising_displays(r@, self@.by_display.dom()),
    {
        let keys = map_keys(&self.workspaces_by_display);
        let ghost unsorted = keys@;
        let r = sort_ranked(keys);
        proof {
            unsorted.lemma_multiset_has_no_duplicates();
            unsorted.to_multiset_ensures();
            r@.to_multiset_ensures();
            r@.lemma_multiset_has_no_duplicates_conv();
            assert forall|d: DisplayId| r@.to_set().contains(d) <==> self@.by_display.dom().contains(
                d,
            ) by {
                assert(r@.contains(d) <==> r@.to_multiset().count(d) > 0);
                assert(unsorted.contains(d) <==> unsorted.to_multiset().count(d) > 0);
            }
            assert(r@.to_set() =~= self@.by_display.dom());
            assert forall|i: int, j: int| 0 <= i < j < r@.len() implies r@[i] < r@[j] by {
                assert(r@[i].rank() <= r@[j].rank());
                assert(r@[i] != r@[j]);
            }
        }
        r
    }

    /// The workspace at a position when the workspaces of all displays are counted through, in
    /// the order of the displays.
    pub fn workspace_by_global_index(&mut self, global_index: usize) -> (r: Option<
        (DisplayId, VirtualWorkspaceId),
    >)
        ensures
            final(self)@ == old(self)@,
            old(self)@.finds_at(global_index as int, r),
    {
        let displays = self.displays_in_use();
        let ghost model = self@;
        let mut skipped: usize = global_index;
        let mut i: usize = 0;
        while i < displays.len()
            invariant
                i <= displays@.len(),
                self@ == model,
                model == old(self)@,
                crate::model::manager_model::rising_displays(displays@, model.by_display.dom()),
                global_index == skipped + crate::model::manager_model::global_listing(
                    model,
                    displays@.take(i as int),
                ).len(),
            decreases displays@.len() - i,
        {
            let display = displays[i];
            proof {
                assert(displays@.to_set().contains(displays@[i as int]));
                assert(displays@.take(i + 1).drop_last() =~= displays@.take(i as int));
            }
            let workspaces = self.list_workspaces(display);
            let ghost before = crate::model::manager_model::global_listing(
                model,
                displays@.take(i as int),
            );
            let ghost through = crate::model::manager_model::global_listing(
                model,
                displays@.take(i + 1),
            );
            let ghost here = model.listing(display).map_values(
                |e: (VirtualWorkspaceId, Seq<char>)| (display, e.0),
            );
            let ghost shown = workspaces@.map_values(
                |e: (VirtualWorkspaceId, String)| (e.0, e.1@),
            );
            assert(through =~= before + here);
            assert(shown.len() == workspaces@.len());
            if skipped < workspaces.len() {
                proof {
                    assert(shown[skipped as int] == model.listing(display)[skipped as int]);
                    assert(through[global_index as int] == (display, workspaces@[skipped as int].0));
                    lemma_global_listing_prefix(model, displays@, i + 1);
                }
                return Some((display, workspaces[skipped].0));
            }
            skipped -= workspaces.len();
            i += 1;
        }
        assert(displays@.take(displays@.len() as int) =~= displays@);
        None
    }

    /// The workspace that new windows of the display go to.
    pub fn get_default_workspace(&mut self, display: DisplayId) -> (r: Result<
        VirtualWorkspaceId,
        WorkspaceError,
    >)
        requires
            old(self)@.fits(display, 0),
        ensures
            old(self)@.defaults_to(final(self)@, display, r),
            final(self)@.by_display.contains_key(display),
    {
        self.ensure_display_initialized(display);
        let ghost ready = self@;
        assert(old(self)@.initializes(ready, display));
        if let Some(active) = self.active_workspace(display) {
            if self.workspace(active).is_some() {
                return Ok(active);
            }
            self.active_workspace_per_display.remove(&display);
        }
        assert(self@.active =~= ready.active.remove(display));
        let ids = self.ids(display);
        if ids.len() == 0 {
            return Err(
                WorkspaceError::InconsistentState("No workspaces for display".to_string()),
            );
        }
        let first = ids[0];
        if self.set_active_workspace(display, first) {
            Ok(first)
        } else {
            Err(
                WorkspaceError::InconsistentState(
                    "Failed to set default workspace as active".to_string(),
                ),
            )
        }
    }

    /// Puts a window into the workspace that new windows of the display go to.
    pub fn auto_assign_window(&mut self, window_id: WindowId, display: DisplayId) -> (r: Result<
        VirtualWorkspaceId,
        WorkspaceError,
    >)
        requires
            old(self)@.fits(display, 0),
        ensures
            old(self)@.settles_by_default(final(self)@, display, window_id, r),
    {
        let target = self.get_default_workspace(display);
        let ghost ready = self@;
        assert(old(self)@.defaults_to(ready, display, target));
        match target {
            Err(e) => Err(e),
            Ok(id) => {
                if self.assign_window_to_workspace(display, window_id, id) {
                    let ghost moved = self@;
                    self.window_rule_floating.remove(&(display, window_id));
                    proof {
                        assert(ready.assigns(moved, display, window_id, id));
                        assert(self@ =~= moved.with_rule_floating(display, window_id, false));
                        assert(ready.settles(self@, display, window_id, id, false));
                    }
                    Ok(id)
                } else {
                    Err(WorkspaceError::AssignmentFailed)
                }
            },
        }
    }

    /// Finds the workspace that a rule sends windows to.
    fn rule_target(&mut self, display: DisplayId, selector: &Option<WorkspaceSelector>) -> (r: Result<
        VirtualWorkspaceId,
        WorkspaceError,
    >)
        requires
            old(self)@.by_display.contains_key(display),
        ensures
            old(self)@.rule_leads_to(final(self)@, display, *selector, r),
            final(self)@.by_display.contains_key(display),
    {
        let position = match selector {
            None => None,
            Some(WorkspaceSelector::Index(i)) => Some(*i),
            Some(WorkspaceSelector::Name(name)) => {
                let workspaces = self.list_workspaces(display);
                named_position(&workspaces, name)
            },
        };
        if let Some(i) = position {
            let len = self.ids(display).len();
            if i < len {
                let workspaces = self.list_workspaces(display);
                let ghost shown = workspaces@.map_values(
                    |e: (VirtualWorkspaceId, String)| (e.0, e.1@),
                );
                assert(shown.len() == workspaces@.len());
                if i < workspaces.len() {
                    assert(shown[i as int].0 == workspaces@[i as int].0);
                    return Ok(workspaces[i].0);
                }
            }
        }
        self.get_default_workspace(display)
    }

    /// Gives a window its workspace, under the rule that applies to it, and says whether the rule
    /// lets it float.
    pub fn assign_window_by_rule(
        &mut self,
        window_id: WindowId,
        display: DisplayId,
        rule: Option<AppWorkspaceRule>,
    ) -> (r: Result<(VirtualWorkspaceId, bool), WorkspaceError>)
        requires
            old(self)@.fits(display, 0),
        ensures
            old(self)@.assigns_by_rule(final(self)@, display, window_id, rule, r),
    {
        self.ensure_display_initialized(display);
        let ghost ready = self@;
        assert(old(self)@.initializes(ready, display));
        if self.ids(display).len() == 0 {
            return Err(WorkspaceError::NoWorkspacesAvailable);
        }
        if let Some(existing) = self.workspace_for_window(display, window_id) {
            let floats = self.floats_by_rule(display, window_id);
            return Ok((existing, floats));
        }
        if let Some(rule) = &rule {
            let target = self.rule_target(display, &rule.workspace);
            let ghost found = self@;
            assert(ready.rule_leads_to(found, display, rule.workspace, target));
            match target {
                Err(e) => {
                    return Err(e);
                },
                Ok(id) => {
                    if self.assign_window_to_workspace(display, window_id, id) {
                        let ghost moved = self@;
                        if rule.floating {
                            self.window_rule_floating.insert((display, window_id), true);
                        } else {
                            self.window_rule_floating.remove(&(display, window_id));
                        }
                        proof {
                            assert(found.assigns(moved, display, window_id, id));
                            assert(self@ =~= moved.with_rule_floating(
                                display,
                                window_id,
                                rule.floating,
                            ));
                            assert(found.settles(self@, display, window_id, id, rule.floating));
                        }
                        return Ok((id, rule.floating));
                    }
                },
            }
        }
        match self.auto_assign_window(window_id, display) {
            Ok(id) => Ok((id, false)),
            Err(e) => Err(e),
        }
    }

    /// Gives a window its workspace, under the rule for its application, and says whether the
    /// rule lets it float.
    pub fn assign_window_with_app_info(
        &mut self,
        window_id: WindowId,
        display: DisplayId,
        app_bundle_id: Option<&str>,
        app_name: Option<&str>,
        window_title: Option<&str>,
        ax_role: Option<&str>,
        ax_subrole: Option<&str>,
    ) -> (r: Result<(VirtualWorkspaceId, bool), WorkspaceError>)
        requires
            old(self)@.fits(display, 0),
        ensures
            assigns_by_info(
                old(self)@,
                final(self)@,
                display,
                window_id,
                identity(app_bundle_id, app_name, window_title, ax_role, ax_subrole),
                r,
            ),
    {
        self.ensure_display_initialized(display);
        let ghost ready = self@;
        let ghost rules = old(self)@.settings.app_rules;
        let window = WindowIdentity { app_bundle_id, app_name, window_title, ax_role, ax_subrole };
        let decides = self.ids(display).len() > 0 && self.workspace_for_window(
            display,
            window_id,
        ).is_none();
        let mut rule: Option<AppWorkspaceRule> = None;
        let ghost mut applying: Option<usize> = None;
        if decides {
            let chosen = crate::model::app_rules::find_matching_app_rule(&self.app_rules, &window);
            rule = match chosen {
                Some(i) => Some(self.app_rules[i].clone()),
                None => None,
            };
            proof {
                applying = chosen;
            }
        } else {
            proof {
                assert(rules.len() == self.app_rules.len());
                applying = crate::model::app_rules::some_choice_applies(
                    rules,
                    window,
                    crate::model::app_rules::title_verdicts(rules, window),
                );
            }
        }
        let r = self.assign_window_by_rule(window_id, display, rule);
        proof {
            assert(crate::model::app_rules::rule_applies(rules, window, applying));
            assert(old(self)@.initializes(ready, display));
            assert(ready.admits(self@, display, window_id, rule, r));
            assert(ready.admits(
                self@,
                display,
                window_id,
                crate::model::manager_model::rule_at(rules, applying),
                r,
            ));
        }
        r
    }

    /// Stores the position of a floating window of the workspace that the display shows.
    pub fn store_floating_position(
        &mut self,
        display: DisplayId,
        window_id: WindowId,
        position: Frame,
    )
        ensures
            final(self)@ == old(self)@.with_positions(display, seq![(window_id, position)]),
    {
        if let Some(id) = self.active_workspace(display) {
            let mut positions = self.take_positions(display, id);
            let ghost held = positions@;
            positions.store_position(window_id, position);
            proof {
                lemma_positions_inserted(self.floating_positions@, (display, id), positions);
            }
            self.floating_positions.insert((display, id), positions);
            proof {
                let stored = seq![(window_id, position)];
                assert(stored.drop_last() =~= Seq::<(WindowId, Frame)>::empty());
                reveal_with_fuel(crate::model::manager_model::overwritten, 2);
                assert(crate::model::manager_model::overwritten(held, stored) =~= held.insert(
                    window_id,
                    position,
                ));
                assert(self@.positions =~= old(self)@.with_positions(display, stored).positions);
            }
        }
    }

    /// Takes out the positions of the floating windows of a workspace.
    fn take_positions(&mut self, display: DisplayId, id: VirtualWorkspaceId) -> (r:
        FloatingWindowPositions)
        ensures
            r@ == old(self)@.positions_in(display, id),
            final(self)@ == (ManagerModel {
                positions: old(self)@.positions.remove((display, id)),
                ..old(self)@
            }),
    {
        let r = match self.floating_positions.remove(&(display, id)) {
            Some(positions) => positions,
            None => FloatingWindowPositions::default(),
        };
        assert(self@.positions =~= old(self)@.positions.remove((display, id)));
        r
    }

    /// The position of a floating window of a workspace.
    pub fn get_floating_position(
        &self,
        display: DisplayId,
        workspace_id: VirtualWorkspaceId,
        window_id: WindowId,
    ) -> (r: Option<Frame>)
        ensures
            r == self@.positions_in(display, workspace_id).get(window_id),
    {
        match self.floating_positions.get(&(display, workspace_id)) {
            Some(positions) => positions.get_position(window_id),
            None => None,
        }
    }

    /// Stores the positions of floating windows of the workspace that the display shows.
    pub fn store_current_floating_positions(
        &mut self,
        display: DisplayId,
        floating_windows: &[(WindowId, Frame)],
    )
        ensures
            final(self)@ == old(self)@.with_positions(display, floating_windows@),
    {
        if let Some(id) = self.active_workspace(display) {
            let mut positions = self.take_positions(display, id);
            let ghost held = positions@;
            let mut i: usize = 0;
            while i < floating_windows.len()
                invariant
                    i <= floating_windows@.len(),
                    positions@ == crate::model::manager_model::overwritten(
                        held,
                        floating_windows@.take(i as int),
                    ),
                decreases floating_windows@.len() - i,
            {
                let (window_id, position) = floating_windows[i];
                positions.store_position(window_id, position);
                assert(floating_windows@.take(i + 1).drop_last() =~= floating_windows@.take(
                    i as int,
                ));
                i += 1;
            }
            assert(floating_windows@.take(floating_windows@.len() as int) =~= floating_windows@);
            proof {
                lemma_positions_inserted(self.floating_positions@, (display, id), positions);
            }
            self.floating_positions.insert((display, id), positions);
            assert(self@.positions =~= old(self)@.with_positions(
                display,
                floating_windows@,
            ).positions);
        }
    }

    /// The positions of the floating windows of a workspace, each window once.
    pub fn get_workspace_floating_positions(
        &self,
        display: DisplayId,
        workspace_id: VirtualWorkspaceId,
    ) -> (r: Vec<(WindowId, Frame)>)
        ensures
            crate::common::collections::keys_distinct(r@),
            crate::common::collections::entries_map(r@) == self@.positions_in(display, workspace_id),
    {
        let mut r: Vec<(WindowId, Frame)> = Vec::new();
        if let Some(positions) = self.floating_positions.get(&(display, workspace_id)) {
            let windows = positions.windows();
            let mut i: usize = 0;
            while i < windows.len()
                invariant
                    i <= windows@.len(),
                    windows@.to_set() == positions@.dom(),
                    r@ == Seq::new(i as nat, |j: int| (windows@[j], positions@[windows@[j]])),
                decreases windows@.len() - i,
            {
                assert(windows@.to_set().contains(windows@[i as int]));
                if let Some(position) = positions.get_position(windows[i]) {
                    r.push((windows[i], position));
                }
                i += 1;
                assert(r@ =~= Seq::new(i as nat, |j: int| (windows@[j], positions@[windows@[j]])));
            }
            proof {
                assert forall|k: WindowId| #[trigger]
                    crate::common::collections::has_key(r@, k) <==> positions@.contains_key(k) by {
                    if positions@.contains_key(k) {
                        assert(windows@.to_set().contains(k));
                        let j = choose|j: int| 0 <= j < windows@.len() && windows@[j] == k;
                        assert(r@[j].0 == k);
                    }
                    if crate::common::collections::has_key(r@, k) {
                        let j = choose|j: int| 0 <= j < r@.len() && (#[trigger] r@[j]).0 == k;
                        assert(windows@.to_set().contains(windows@[j]));
                    }
                }
                assert(crate::common::collections::entries_map(r@) =~= positions@);
            }
        } else {
            assert(crate::common::collections::entries_map(r@) =~= Map::<WindowId, Frame>::empty());
        }
        r
    }

    /// Forgets the positions of a window in all workspaces.
    pub fn remove_floating_position(&mut self, window_id: WindowId)
        ensures
            final(self)@ == old(self)@.without_positions(|w: WindowId| w == window_id),
    {
        let who = WindowChoice::One(window_id);
        self.forget_positions(&who);
        assert(who.pred() =~= |w: WindowId| w == window_id);
    }

    /// Forgets the positions of the windows of a process in all workspaces.
    pub fn remove_app_floating_positions(&mut self, pid: pid_t)
        ensures
            final(self)@ == old(self)@.without_positions(|w: WindowId| w.pid == pid),
    {
        let who = WindowChoice::OfProcess(pid);
        self.forget_positions(&who);
        assert(who.pred() =~= |w: WindowId| w.pid == pid);
    }

    /// Forgets the positions of some windows in all workspaces.
    fn forget_positions(&mut self, who: &WindowChoice)
        ensures
            final(self)@ == old(self)@.without_positions(who.pred()),
    {
        let ghost pred = who.pred();
        let keys = self.floating_positions.keys();
        let mut i: usize = 0;
        proof {
            assert(self@.positions =~= with_forgotten(self@.positions, keys@.take(0), pred));
            assert forall|j: int| 0 <= j < keys@.len() implies self@.positions.contains_key(
                #[trigger] keys@[j],
            ) by {
                assert(keys@.contains(keys@[j]));
            }
        }
        while i < keys.len()
            invariant
                i <= keys@.len(),
                keys@.no_duplicates(),
                forall|j: int|
                    0 <= j < keys@.len() ==> old(self)@.positions.contains_key(
                        #[trigger] keys@[j],
                    ),
                pred == who.pred(),
                self@ == (ManagerModel { positions: self@.positions, ..old(self)@ }),
                self@.positions == with_forgotten(old(self)@.positions, keys@.take(i as int), pred),
            decreases keys@.len() - i,
        {
            let ghost before = self@.positions;
            let mut positions = self.take_positions(keys[i].0, keys[i].1);
            let ghost held = positions@;
            match who {
                WindowChoice::One(window_id) => {
                    positions.remove_position(*window_id);
                },
                WindowChoice::OfProcess(pid) => {
                    positions.remove_app_windows(*pid);
                },
            }
            let ghost left = positions@;
            proof {
                lemma_positions_inserted(self.floating_positions@, keys@[i as int], positions);
            }
            self.floating_positions.insert(keys[i], positions);
            proof {
                lemma_forget_one(old(self)@.positions, keys@, i as int, pred);
                assert(left =~= held.filter_keys(|w: WindowId| !pred(w)));
                assert(self@.positions =~= before.insert(keys@[i as int], left));
            }
            i += 1;
        }
        proof {
            assert(keys@.take(keys@.len() as int) =~= keys@);
            assert(self@.positions =~= old(self)@.without_positions(pred).positions);
        }
    }

    /// Figures about the workspaces of all displays.
    pub fn get_stats(&self) -> (r: WorkspaceStats)
        ensures
            r.total_workspaces == self@.workspaces.len(),
            r.total_windows == self@.assigned.len(),
            r.active_spaces == self@.active.len(),
            r.workspace_window_counts@.dom() == self@.workspaces.dom(),
            forall|id: VirtualWorkspaceId| #[trigger]
                self@.workspaces.contains_key(id) ==> r.workspace_window_counts@[id]
                    == self@.workspaces[id].windows.len(),
    {
        proof {
            lemma_models_len(self.workspaces);
        }
        let ids = self.workspaces.keys();
        let mut counts: VecMap<VirtualWorkspaceId, usize> = VecMap::new();
        let mut i: usize = 0;
        assert(ids@.take(0).to_set() =~= Set::<VirtualWorkspaceId>::empty());
        while i < ids.len()
            invariant
                i <= ids@.len(),
                ids@.to_set() == self@.workspaces.dom(),
                counts@.dom() == ids@.take(i as int).to_set(),
                forall|id: VirtualWorkspaceId| #[trigger]
                    counts@.contains_key(id) ==> counts@[id] == self@.workspaces[id].windows.len(),
            decreases ids@.len() - i,
        {
            let id = ids[i];
            assert(ids@.to_set().contains(id));
            if let Some(workspace) = self.workspace(id) {
                counts.insert(id, workspace.window_count());
            }
            proof {
                crate::common::sequences::lemma_take_step(ids@, i as int);
                assert(counts@.dom() =~= ids@.take(i + 1).to_set());
            }
            i += 1;
        }
        assert(ids@.take(ids@.len() as int) =~= ids@);
        WorkspaceStats {
            total_workspaces: self.workspaces.len(),
            total_windows: self.window_to_workspace.len(),
            active_spaces: self.active_workspace_per_display.len(),
            workspace_window_counts: counts,
        }
    }

    /// A manager with the default settings.
    pub fn new() -> (r: Self)
        ensures
            r@ == ManagerModel::empty(default_settings(Seq::empty())),
    {
        let config = VirtualWorkspaceSettings::default();
        let r = VirtualWorkspaceManager::new_with_config(&config);
        assert(settings_of(config) =~= default_settings(Seq::empty()));
        r
    }

    /// A manager with the default settings and rules for applications.
    pub fn new_with_rules(app_rules: Vec<AppWorkspaceRule>) -> (r: Self)
        ensures
            r@ == ManagerModel::empty(default_settings(app_rules@)),
    {
        let mut config = VirtualWorkspaceSettings::default();
        config.app_rules = app_rules;
        let r = VirtualWorkspaceManager::new_with_config(&config);
        assert(settings_of(config) =~= default_settings(app_rules@));
        r
    }
}

} // verus!

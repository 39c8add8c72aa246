//! What is saved of the workspaces, and how they are restored.
use std::collections::HashMap;
use vstd::prelude::*;
use crate::common::collections::VecMap;
use crate::model::ids::{DisplayId, VirtualWorkspaceId, WindowId};
use crate::model::manager_model::{ManagerModel, ManagerSettings};
use crate::model::slots::WorkspaceSlots;
use crate::model::virtual_workspace::VirtualWorkspaceManager;
use crate::model::workspace::{FloatingWindowPositions, VirtualWorkspace, WorkspaceModel};

verus! {

/// What is saved of a manager.
#[derive(Debug)]
pub struct SavedManager {
    /// The workspaces, in the order in which they were made.
    pub workspaces: Vec<VirtualWorkspace>,
    pub workspaces_by_display: HashMap<DisplayId, Vec<VirtualWorkspaceId>>,
    pub active_workspace_per_display: HashMap<
        DisplayId,
        (Option<VirtualWorkspaceId>, VirtualWorkspaceId),
    >,
    pub window_to_workspace: VecMap<(DisplayId, WindowId), VirtualWorkspaceId>,
    pub floating_positions: VecMap<(DisplayId, VirtualWorkspaceId), FloatingWindowPositions>,
    pub workspace_counter: usize,
}

impl WorkspaceModel {
    /// What is saved of the workspace: all but the space.
    pub open spec fn persisted(self) -> Self {
        WorkspaceModel { space: None, ..self }
    }
}

impl ManagerSettings {
    /// No settings.
    pub open spec fn unset() -> Self {
        ManagerSettings {
            app_rules: Seq::empty(),
            max_workspaces: 0,
            default_workspace_count: 0,
            default_workspace_names: Seq::empty(),
            auto_back_and_forth: false,
            definitions: Seq::empty(),
        }
    }
}

impl ManagerModel {
    /// The manager but for what is not saved: the spaces, what rules let float, and the settings.
    pub open spec fn persisted(self) -> Self {
        ManagerModel {
            workspaces: self.workspaces.map_values(|w: WorkspaceModel| w.persisted()),
            display_spaces: Map::empty(),
            rule_floating: Map::empty(),
            settings: ManagerSettings::unset(),
            ..self
        }
    }
}

/// Workspaces under the ids that they get when they are made one after the other.
pub open spec fn made_in_order(workspaces: Seq<VirtualWorkspace>) -> Map<
    VirtualWorkspaceId,
    WorkspaceModel,
> {
    Map::new(
        |id: VirtualWorkspaceId|
            0 < id.number() - crate::model::ids::made_number(0) <= workspaces.len(),
        |id: VirtualWorkspaceId|
            workspaces[id.number() - crate::model::ids::made_number(0) - 1]@,
    )
}

/// The manager that what was saved stands for.
pub open spec fn restored(saved: SavedManager) -> ManagerModel {
    ManagerModel {
        workspaces: made_in_order(saved.workspaces@),
        by_display: saved.workspaces_by_display@.map_values(|v: Vec<VirtualWorkspaceId>| v@),
        active: saved.active_workspace_per_display@,
        assigned: saved.window_to_workspace@,
        display_spaces: Map::empty(),
        rule_floating: Map::empty(),
        positions: saved.floating_positions@.map_values(|p: FloatingWindowPositions| p@),
        counter: saved.workspace_counter,
        settings: ManagerSettings::unset(),
    }
}

/// Ids that are as many as their numbers leave room for have all of these numbers.
proof fn lemma_numbers_filled(ids: Seq<VirtualWorkspaceId>, n: nat)
    requires
        1 <= n <= ids.len(),
        ids.no_duplicates(),
        forall|i: int|
            0 <= i < ids.len() ==> crate::model::ids::made_number(0) < (
            #[trigger] ids[i]).number() <= crate::model::ids::made_number(ids.len()),
    ensures
        exists|i: int|
            0 <= i < ids.len() && (#[trigger] ids[i]).number() == crate::model::ids::made_number(n),
{
    let numbers = ids.map_values(|id: VirtualWorkspaceId| id.number() as int);
    assert forall|i: int, j: int|
        0 <= i < numbers.len() && 0 <= j < numbers.len() && i != j implies numbers[i]
        != numbers[j] by {
        if ids[i].number() == ids[j].number() {
            VirtualWorkspaceId::number_is_injective(ids[i], ids[j]);
        }
    }
    numbers.unique_seq_to_set();
    vstd::seq_lib::seq_to_set_is_finite(numbers);
    let lo = crate::model::ids::made_number(1) as int;
    let hi = crate::model::ids::made_number(ids.len() + 1) as int;
    vstd::set_lib::lemma_int_range(lo, hi);
    vstd::set_lib::lemma_subset_equality(
        numbers.to_set(),
        vstd::set_lib::set_int_range(lo, hi),
    );
    let wanted = crate::model::ids::made_number(n) as int;
    assert(numbers.to_set().contains(wanted));
    let i = choose|i: int| 0 <= i < numbers.len() && numbers[i] == wanted;
    assert(ids[i].number() == wanted);
}

impl VirtualWorkspaceManager {
    /// The workspaces as they are saved, in the order in which they were made.
    fn save_workspaces(&self) -> (r: Vec<VirtualWorkspace>)
        ensures
            made_in_order(r@) == self@.persisted().workspaces,
    {
        let ids = self.workspaces.keys();
        let len = self.workspaces.len();
        let ghost contents = crate::model::slots::slot_contents(self.workspaces);
        proof {
            ids@.unique_seq_to_set();
        }
        let mut r: Vec<VirtualWorkspace> = Vec::new();
        let mut i: usize = 0;
        while i < len
            invariant
                i <= len < u32::MAX,
                r@.len() == i,
                len == ids@.len(),
                contents == crate::model::slots::slot_contents(self.workspaces),
                ids@.no_duplicates(),
                ids@.to_set() == contents.dom(),
                forall|j: int|
                    0 <= j < ids@.len() ==> crate::model::ids::made_number(0) < (
                    #[trigger] ids@[j]).number() <= crate::model::ids::made_number(ids@.len()),
                forall|id: VirtualWorkspaceId, j: int|
                    #![trigger contents[id], r@[j]]
                    0 <= j < i && id.number() == crate::model::ids::made_number((j + 1) as nat)
                        ==> r@[j]@ == contents[id]@.persisted(),
            decreases len - i,
        {
            let id = VirtualWorkspaceId::made_as(i as u32 + 1);
            proof {
                lemma_numbers_filled(ids@, (i + 1) as nat);
                let j = choose|j: int|
                    0 <= j < ids@.len() && (#[trigger] ids@[j]).number()
                        == crate::model::ids::made_number((i + 1) as nat);
                VirtualWorkspaceId::number_is_injective(ids@[j], id);
                assert(ids@.to_set().contains(id));
            }
            if let Some(workspace) = self.workspaces.get(id) {
                let mut copy = workspace.clone();
                copy.forget_space();
                r.push(copy);
            }
            proof {
                assert forall|other: VirtualWorkspaceId| #[trigger]
                    other.number() == id.number() implies other == id by {
                    VirtualWorkspaceId::number_is_injective(other, id);
                }
            }
            i += 1;
        }
        proof {
            let kept = self@.persisted().workspaces;
            assert forall|id: VirtualWorkspaceId| #[trigger]
                made_in_order(r@).contains_key(id) implies kept.contains_key(id)
                && made_in_order(r@)[id] == kept[id] by {
                let n = (id.number() - crate::model::ids::made_number(0)) as nat;
                lemma_numbers_filled(ids@, n);
                let j = choose|j: int|
                    0 <= j < ids@.len() && (#[trigger] ids@[j]).number()
                        == crate::model::ids::made_number(n);
                VirtualWorkspaceId::number_is_injective(ids@[j], id);
                assert(ids@.to_set().contains(id));
                assert(r@[n - 1]@ == contents[id]@.persisted());
            }
            assert forall|id: VirtualWorkspaceId| #[trigger]
                kept.contains_key(id) implies made_in_order(r@).contains_key(id) by {
                assert(ids@.to_set().contains(id));
                let j = choose|j: int| 0 <= j < ids@.len() && ids@[j] == id;
                assert(ids@[j].number() <= crate::model::ids::made_number(ids@.len()));
            }
            assert(made_in_order(r@) =~= kept);
        }
        r
    }

    /// The positions of floating windows as they are saved.
    fn save_positions(&self) -> (r: VecMap<
        (DisplayId, VirtualWorkspaceId),
        FloatingWindowPositions,
    >)
        ensures
            super::position_models(r@) == self@.positions,
    {
        let keys = self.floating_positions.keys();
        let mut r: VecMap<(DisplayId, VirtualWorkspaceId), FloatingWindowPositions> = VecMap::new();
        let mut i: usize = 0;
        while i < keys.len()
            invariant
                i <= keys@.len(),
                forall|k: (DisplayId, VirtualWorkspaceId)| #[trigger]
                    keys@.contains(k) <==> self.floating_positions@.contains_key(k),
                forall|k: (DisplayId, VirtualWorkspaceId)| #[trigger]
                    r@.contains_key(k) <==> keys@.take(i as int).contains(k),
                forall|k: (DisplayId, VirtualWorkspaceId)| #[trigger]
                    r@.contains_key(k) ==> r@[k]@ == self.floating_positions@[k]@,
            decreases keys@.len() - i,
        {
            assert(keys@.contains(keys@[i as int]));
            if let Some(positions) = self.floating_positions.get(&keys[i]) {
                r.insert(keys[i], positions.clone());
            }
            proof {
                crate::common::sequences::lemma_take_step(keys@, i as int);
            }
            i += 1;
        }
        assert(keys@.take(keys@.len() as int) =~= keys@);
        assert(super::position_models(r@) =~= self@.positions);
        r
    }

    /// What is saved of the manager. Restoring it gives the manager back, but for what is not
    /// saved.
    pub fn save(&self) -> (r: SavedManager)
        ensures
            restored(r) == self@.persisted(),
    {
        let r = SavedManager {
            workspaces: self.save_workspaces(),
            workspaces_by_display: self.workspaces_by_display.clone(),
            active_workspace_per_display: self.active_workspace_per_display.clone(),
            window_to_workspace: self.window_to_workspace.clone(),
            floating_positions: self.save_positions(),
            workspace_counter: self.workspace_counter,
        };
        assert(restored(r) =~= self@.persisted());
        r
    }

    /// Restores what was saved. There is no room for more workspaces than the store can number.
    pub fn restore(saved: SavedManager) -> (r: Option<Self>)
        ensures
            match r {
                Some(manager) => saved.workspaces@.len() + 1 < u32::MAX && manager@ == restored(saved),
                None => saved.workspaces@.len() + 1 >= u32::MAX,
            },
    {
        let made = saved.workspaces;
        if made.len() >= u32::MAX as usize - 1 {
            return None;
        }
        let mut workspaces = WorkspaceSlots::new();
        let mut i: usize = 0;
        while i < made.len()
            invariant
                i <= made@.len(),
                made@.len() + 1 < u32::MAX,
                crate::model::slots::slot_contents(workspaces).len() == i,
                super::workspace_models(workspaces) == made_in_order(made@.take(i as int)),
            decreases made@.len() - i,
        {
            let ghost before = super::workspace_models(workspaces);
            let workspace = made[i].clone();
            let id = workspaces.insert(workspace);
            proof {
                let taken = made@.take(i as int);
                let more = made@.take(i + 1);
                assert(super::workspace_models(workspaces) =~= before.insert(id, made@[i as int]@));
                assert forall|other: VirtualWorkspaceId| #[trigger]
                    other.number() == id.number() implies other == id by {
                    VirtualWorkspaceId::number_is_injective(other, id);
                }
                assert(made_in_order(more) =~= made_in_order(taken).insert(id, made@[i as int]@));
            }
            i += 1;
        }
        assert(made@.take(made@.len() as int) =~= made@);
        let manager = VirtualWorkspaceManager {
            workspaces,
            workspaces_by_display: saved.workspaces_by_display,
            active_workspace_per_display: saved.active_workspace_per_display,
            window_to_workspace: saved.window_to_workspace,
            display_to_space: HashMap::new(),
            window_rule_floating: VecMap::new(),
            floating_positions: saved.floating_positions,
            workspace_counter: saved.workspace_counter,
            app_rules: Vec::new(),
            max_workspaces: 0,
            default_workspace_count: 0,
            default_workspace_names: Vec::new(),
            workspace_auto_back_and_forth: false,
            workspace_definitions: Vec::new(),
        };
        assert(manager@ =~= restored(saved));
        Some(manager)
    }
}

/// With its settings back, a manager that was saved and restored is as consistent as before.
pub proof fn restored_manager_is_consistent(before: ManagerModel, saved: SavedManager)
    requires
        before.wf(),
        restored(saved) == before.persisted(),
    ensures
        (ManagerModel { settings: before.settings, ..restored(saved) }).wf(),
{
    let after = ManagerModel { settings: before.settings, ..restored(saved) };
    assert(after.workspaces.dom() =~= before.workspaces.dom());
    assert forall|id: VirtualWorkspaceId| #[trigger]
        before.workspaces.contains_key(id) implies after.workspaces[id]
        == before.workspaces[id].persisted() by {}
    assert forall|d: DisplayId, id: VirtualWorkspaceId| #[trigger]
        before.owns(d, id) implies after.owns(d, id) by {}
    assert forall|id: VirtualWorkspaceId, w: WindowId|
        #![trigger after.workspaces[id].windows.contains(w)]
        after.workspaces.contains_key(id) && after.workspaces[id].windows.contains(w) implies {
        &&& after.assigned.contains_key((after.workspaces[id].display, w))
        &&& after.assigned[(after.workspaces[id].display, w)] == id
    } by {
        assert(before.workspaces[id].windows.contains(w));
    }
    assert forall|d: DisplayId, i: int|
        #![trigger after.by_display[d][i]]
        after.by_display.contains_key(d) && 0 <= i < after.by_display[d].len() implies after.owns(
        d,
        after.by_display[d][i],
    ) by {
        assert(before.owns(d, before.by_display[d][i]));
    }
}

/// A manager that is restored has all that was saved: the workspaces under the ids that they had when
/// they were made one after the other, the order of the displays' workspaces, what the displays showed
/// and show, the workspaces of the windows, the stored positions and the count. It knows no spaces,
/// lets nothing float by a rule and has no settings.
pub proof fn restored_manager_has_what_was_saved(saved: SavedManager)
    ensures
        ({
            let after = restored(saved);
            &&& forall|id: VirtualWorkspaceId| #[trigger]
                after.workspaces.contains_key(id) <==> 0x1_0000_0000 < id.number() <= 0x1_0000_0000
                    + saved.workspaces@.len()
            &&& forall|id: VirtualWorkspaceId| #[trigger]
                after.workspaces.contains_key(id) ==> after.workspaces[id]
                    == saved.workspaces@[id.number() - 0x1_0000_0001]@
            &&& after.by_display.dom() == saved.workspaces_by_display@.dom()
            &&& forall|d: DisplayId| #[trigger]
                after.by_display.contains_key(d) ==> after.by_display[d]
                    == saved.workspaces_by_display@[d]@
            &&& after.active == saved.active_workspace_per_display@
            &&& after.assigned == saved.window_to_workspace@
            &&& after.positions.dom() == saved.floating_positions@.dom()
            &&& forall|k: (DisplayId, VirtualWorkspaceId)| #[trigger]
                after.positions.contains_key(k) ==> after.positions[k]
                    == saved.floating_positions@[k]@
            &&& after.counter == saved.workspace_counter
            &&& forall|d: DisplayId| !#[trigger] after.display_spaces.contains_key(d)
            &&& forall|k: (DisplayId, WindowId)| !#[trigger] after.rule_floating.contains_key(k)
            &&& after.settings.app_rules.len() == 0
            &&& after.settings.definitions.len() == 0
            &&& after.settings.default_workspace_names.len() == 0
            &&& after.settings.max_workspaces == 0
            &&& after.settings.default_workspace_count == 0
            &&& !after.settings.auto_back_and_forth
        }),
{
    let after = restored(saved);
    assert(after.by_display.dom() =~= saved.workspaces_by_display@.dom());
    assert(after.positions.dom() =~= saved.floating_positions@.dom());
}

/// A manager that was saved and restored has the same workspaces, with the same names, displays and
/// windows and the same last focused windows, in the same order; it shows the same ones, has the
/// windows in the same ones, and the same positions and count. Only the spaces are not known.
pub proof fn restored_manager_keeps_its_workspaces(
    before: ManagerModel,
    saved: SavedManager,
    display: DisplayId,
)
    requires
        restored(saved) == before.persisted(),
    ensures
        restored(saved).workspaces.dom() == before.workspaces.dom(),
        forall|id: VirtualWorkspaceId| #[trigger]
            before.workspaces.contains_key(id) ==> {
                let kept = restored(saved).workspaces[id];
                &&& kept.name == before.workspaces[id].name
                &&& kept.display == before.workspaces[id].display
                &&& kept.windows == before.workspaces[id].windows
                &&& kept.last_focused == before.workspaces[id].last_focused
                &&& kept.space is None
            },
        restored(saved).by_display == before.by_display,
        restored(saved).active == before.active,
        restored(saved).counter == before.counter,
        restored(saved).listing(display) == before.listing(display),
        restored(saved).active_on(display) == before.active_on(display),
        restored(saved).assigned == before.assigned,
        restored(saved).positions == before.positions,
{
    let after = restored(saved);
    assert(after.workspaces.dom() =~= before.workspaces.dom());
    assert(after.listing(display) =~= before.listing(display));
}

} // verus!

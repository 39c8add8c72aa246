//! The store of the virtual workspaces: a slot map, which hands out a key of its own for each
//! value that it takes in.
use slotmap::{DefaultKey, Key, KeyData, SlotMap};
use vstd::prelude::*;
use crate::model::ids::VirtualWorkspaceId;
use crate::model::workspace::VirtualWorkspace;

verus! {

/// Holds a `slotmap::SlotMap` of workspaces. The map is private and nothing here takes a value
/// out of it, so the number of its slots grows by one with each insertion only.
#[verifier::external_body]
#[derive(Debug)]
pub struct WorkspaceSlots {
    inner: SlotMap<DefaultKey, VirtualWorkspace>,
}

/// What the slots hold, by id.
pub uninterp spec fn slot_contents(slots: WorkspaceSlots) -> Map<VirtualWorkspaceId, VirtualWorkspace>;

impl WorkspaceSlots {
    /// `SlotMap::default`: an empty slot map.
    #[verifier::external_body]
    pub(crate) fn new() -> (r: Self)
        ensures
            slot_contents(r).dom() == Set::<VirtualWorkspaceId>::empty(),
    {
        WorkspaceSlots { inner: SlotMap::default() }
    }

    /// `SlotMap::insert`: stores the value under a key that no value in the map has, and hands
    /// the key back. It panics when the map has `u32::MAX` slots, one of which is set aside from
    /// the start. The version of an occupied slot is odd, as an id asks. As nothing is taken out,
    /// a value gets the slot after those that are taken, in its first version.
    #[verifier::external_body]
    pub(crate) fn insert(&mut self, workspace: VirtualWorkspace) -> (r: VirtualWorkspaceId)
        requires
            slot_contents(*old(self)).len() < u32::MAX - 1,
        ensures
            !slot_contents(*old(self)).contains_key(r),
            r.number() == crate::model::ids::made_number(slot_contents(*old(self)).len() + 1),
            slot_contents(*final(self)) == slot_contents(*old(self)).insert(r, workspace),
            slot_contents(*final(self)).len() == slot_contents(*old(self)).len() + 1,
    {
        VirtualWorkspaceId { ffi: self.inner.insert(workspace).data().as_ffi() }
    }

    /// `SlotMap::get`: the value under the key, if there is one. `KeyData::from_ffi` gives back
    /// the key that a number was made from; it makes the version odd, which that of an id is.
    #[verifier::external_body]
    pub(crate) fn get(&self, id: VirtualWorkspaceId) -> (r: Option<&VirtualWorkspace>)
        ensures
            match r {
                Some(w) => slot_contents(*self).contains_key(id) && *w == slot_contents(*self)[id],
                None => !slot_contents(*self).contains_key(id),
            },
    {
        self.inner.get(DefaultKey::from(KeyData::from_ffi(id.ffi)))
    }

    /// `SlotMap::get_mut`: the value under the key, if there is one, to be changed in place.
    #[verifier::external_body]
    pub(crate) fn get_mut(&mut self, id: VirtualWorkspaceId) -> (r: Option<&mut VirtualWorkspace>)
        ensures
            match r {
                Some(w) => {
                    &&& slot_contents(*old(self)).contains_key(id)
                    &&& *w == slot_contents(*old(self))[id]
                    &&& slot_contents(*final(self)) == slot_contents(*old(self)).insert(
                        id,
                        *final(w),
                    )
                },
                None => {
                    &&& !slot_contents(*old(self)).contains_key(id)
                    &&& slot_contents(*final(self)) == slot_contents(*old(self))
                },
            },
    {
        self.inner.get_mut(DefaultKey::from(KeyData::from_ffi(id.ffi)))
    }

    /// `SlotMap::len`: the number of values. There are fewer than `u32::MAX`, as an insertion that
    /// would make them more panics.
    #[verifier::external_body]
    pub(crate) fn len(&self) -> (r: usize)
        ensures
            r == slot_contents(*self).len(),
            r < u32::MAX,
    {
        self.inner.len()
    }

    /// `SlotMap::keys`: the key of every value, each once. The order in which they come is left
    /// open. As nothing is taken out, the keys are those of the first slots.
    #[verifier::external_body]
    pub(crate) fn keys(&self) -> (r: Vec<VirtualWorkspaceId>)
        ensures
            r@.no_duplicates(),
            r@.to_set() == slot_contents(*self).dom(),
            forall|i: int|
                0 <= i < r@.len() ==> crate::model::ids::made_number(0) < (#[trigger] r@[i]).number()
                    <= crate::model::ids::made_number(slot_contents(*self).len()),
    {
        self.inner.keys().map(|k| VirtualWorkspaceId { ffi: k.data().as_ffi() }).collect()
    }
}

} // verus!

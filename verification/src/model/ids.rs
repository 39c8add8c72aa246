//! Identifiers of processes, windows, displays, spaces and workspaces.
use vstd::prelude::*;
use crate::common::collections::{Key, Ranked};
use crate::common::text::{decimal_text, digits_in, parse_digits, zero_padded_text};

verus! {

/// A process identifier.
#[allow(non_camel_case_types)]
pub type pid_t = i32;

/// The index of a physical display: its position in the list of screens. Each display has
/// workspaces of its own.
pub type DisplayId = usize;

/// A window: the process that owns it and its number within that process.
#[derive(Debug, Clone, Copy, PartialEq, Eq, Hash, Structural)]
pub struct WindowId {
    pub pid: pid_t,
    pub idx: u32,
}

impl WindowId {
    pub fn new(pid: pid_t, idx: u32) -> (r: Self)
        ensures
            r == (WindowId { pid, idx }),
    {
        WindowId { pid, idx }
    }
}

impl Key for WindowId {
    fn duplicate(&self) -> (r: Self) {
        *self
    }

    fn same(&self, other: &Self) -> (r: bool) {
        *self == *other
    }
}

/// Windows are ranked by process, then by number.
impl Ranked for WindowId {
    open spec fn rank(self) -> int {
        self.pid * 0x1_0000_0000 + self.idx
    }

    proof fn rank_is_injective(a: Self, b: Self) {
    }

    fn not_after(&self, other: &Self) -> (r: bool) {
        self.pid < other.pid || (self.pid == other.pid && self.idx <= other.idx)
    }
}

/// A space of the desktop environment.
#[derive(Debug, Clone, Copy, PartialEq, Eq, Hash, Structural)]
pub struct SpaceId {
    pub id: u64,
}

impl SpaceId {
    pub fn new(id: u64) -> (r: Self)
        ensures
            r == (SpaceId { id }),
    {
        SpaceId { id }
    }

    pub fn get(&self) -> (r: u64)
        ensures
            r == self.id,
    {
        self.id
    }
}

/// A window as the window server numbers it.
#[derive(Debug, Clone, Copy, PartialEq, Eq, Hash, Structural)]
pub struct WindowServerId {
    pub id: u32,
}

impl WindowServerId {
    pub fn new(id: u32) -> (r: Self)
        ensures
            r == (WindowServerId { id }),
    {
        WindowServerId { id }
    }
}

impl Key for WindowServerId {
    fn duplicate(&self) -> (r: Self) {
        *self
    }

    fn same(&self, other: &Self) -> (r: bool) {
        *self == *other
    }
}

/// A virtual workspace: the key of its slot, as a slot index in the low half and the odd version
/// of an occupied slot in the high half.
#[derive(Debug, Clone, Copy, PartialEq, Eq, Hash, Structural)]
pub struct VirtualWorkspaceId {
    pub(crate) ffi: u64,
}

pub open spec fn is_key_number(ffi: u64) -> bool {
    (ffi / 0x1_0000_0000) % 2 == 1
}

/// The number of the key of the `n`-th value to be stored, counted from one.
pub open spec fn made_number(n: nat) -> nat {
    0x1_0000_0000 + n
}

/// How the number of a key is shown for debugging.
pub open spec fn key_debug_text(ffi: u64) -> Seq<char> {
    let index = (ffi % 0x1_0000_0000) as nat;
    let version = (ffi / 0x1_0000_0000) as nat;
    let inner = if index == u32::MAX {
        "null"@
    } else {
        crate::common::text::decimal(index) + "v"@ + crate::common::text::decimal(version)
    };
    "VirtualWorkspaceId("@ + inner + ")"@
}

/// How the number of a key is shown to a user: the digits of its debug text as one number of at
/// least eight digits, or the debug text itself when they do not form such a number.
pub open spec fn key_display_text(ffi: u64) -> Seq<char> {
    let shown = key_debug_text(ffi);
    match crate::common::text::parsed(crate::common::text::digits_of(shown)) {
        Some(n) => crate::common::text::zero_padded(crate::common::text::decimal(n as nat), 8),
        None => shown,
    }
}

impl VirtualWorkspaceId {
    #[verifier::type_invariant]
    pub(crate) closed spec fn is_key(self) -> bool {
        is_key_number(self.ffi)
    }

    /// The number that the key is written as.
    pub closed spec fn number(self) -> u64 {
        self.ffi
    }

    /// Ids with the same number are the same.
    pub proof fn number_is_injective(a: Self, b: Self)
        requires
            a.number() == b.number(),
        ensures
            a == b,
    {
    }

    /// The number that the key is written as.
    pub fn to_number(&self) -> (r: u64)
        ensures
            r == self.number(),
            is_key_number(r),
    {
        proof {
            use_type_invariant(self);
        }
        self.ffi
    }

    /// The id whose key is written as that number, if it is the number of a key.
    pub fn from_number(number: u64) -> (r: Option<Self>)
        ensures
            match r {
                Some(id) => is_key_number(number) && id.number() == number,
                None => !is_key_number(number),
            },
    {
        if (number / 0x1_0000_0000) % 2 == 1 {
            Some(VirtualWorkspaceId { ffi: number })
        } else {
            None
        }
    }

    /// The id of the workspace that was the `n`-th to be made, counted from one.
    pub(crate) fn made_as(n: u32) -> (r: Self)
        ensures
            r.number() == made_number(n as nat),
    {
        VirtualWorkspaceId { ffi: 0x1_0000_0000 + n as u64 }
    }

    /// The id that no workspace has.
    pub fn null() -> (r: Self)
        ensures
            r.number() == 0x1_ffff_ffff,
    {
        VirtualWorkspaceId { ffi: 0x1_ffff_ffff }
    }

    /// The text of the id for debugging.
    pub fn to_debug_string(&self) -> (r: String)
        ensures
            r@ == key_debug_text(self.number()),
    {
        let index: u64 = self.ffi % 0x1_0000_0000;
        let version: u64 = self.ffi / 0x1_0000_0000;
        let mut r = "VirtualWorkspaceId(".to_string();
        if index == 0xffff_ffff {
            r.append("null");
        } else {
            r.append(decimal_text(index).as_str());
            r.append("v");
            r.append(decimal_text(version).as_str());
        }
        r.append(")");
        assert(r@ =~= key_debug_text(self.ffi));
        r
    }

    /// The text of the id for a user.
    pub fn to_string(&self) -> (r: String)
        ensures
            r@ == key_display_text(self.number()),
    {
        let shown = self.to_debug_string();
        let digits = digits_in(shown.as_str());
        proof {
            crate::common::text::digits_are_digits(shown@);
        }
        match parse_digits(&digits) {
            Some(n) => zero_padded_text(n, 8),
            None => shown,
        }
    }
}

impl Key for VirtualWorkspaceId {
    fn duplicate(&self) -> (r: Self) {
        *self
    }

    fn same(&self, other: &Self) -> (r: bool) {
        *self == *other
    }
}

} // verus!

//! Window and screen frames.
//!
//! A coordinate is carried as the bit pattern of an IEEE 754 double, so that a frame passes
//! through unchanged and two frames compare as their coordinates do.
use vstd::prelude::*;

verus! {

/// The bit pattern without its sign.
pub open spec fn magnitude(bits: u64) -> u64 {
    bits % 0x8000_0000_0000_0000
}

/// The bit pattern denotes no number.
pub open spec fn is_nan(bits: u64) -> bool {
    magnitude(bits) > 0x7ff0_0000_0000_0000
}

/// The two bit patterns denote equal numbers: the two zeros are equal, what is no number is equal
/// to nothing.
pub open spec fn same_number(a: u64, b: u64) -> bool {
    &&& !is_nan(a)
    &&& !is_nan(b)
    &&& a == b || (magnitude(a) == 0 && magnitude(b) == 0)
}

pub fn numbers_equal(a: u64, b: u64) -> (r: bool)
    ensures
        r == same_number(a, b),
{
    let x: u64 = a % 0x8000_0000_0000_0000;
    let y: u64 = b % 0x8000_0000_0000_0000;
    x <= 0x7ff0_0000_0000_0000 && y <= 0x7ff0_0000_0000_0000 && (a == b || (x == 0 && y == 0))
}

/// A rectangle on the desktop.
#[derive(Debug, Clone, Copy, PartialEq, Eq, Structural)]
pub struct Frame {
    pub x: u64,
    pub y: u64,
    pub width: u64,
    pub height: u64,
}

impl Frame {
    /// The two frames have the same size.
    pub open spec fn same_size(self, other: Frame) -> bool {
        same_number(self.width, other.width) && same_number(self.height, other.height)
    }

    /// The two frames have the same origin and the same size.
    pub open spec fn same_frame(self, other: Frame) -> bool {
        &&& same_number(self.x, other.x)
        &&& same_number(self.y, other.y)
        &&& self.same_size(other)
    }

    pub fn size_equals(&self, other: &Frame) -> (r: bool)
        ensures
            r == self.same_size(*other),
    {
        numbers_equal(self.width, other.width) && numbers_equal(self.height, other.height)
    }

    pub fn equals(&self, other: &Frame) -> (r: bool)
        ensures
            r == self.same_frame(*other),
    {
        numbers_equal(self.x, other.x) && numbers_equal(self.y, other.y) && self.size_equals(other)
    }
}

} // verus!

//! Permission and attribute flags of a mapping.
use vstd::prelude::*;

verus! {

/// Readable.
pub const READ: usize = 0x1;
/// Writable.
pub const WRITE: usize = 0x2;
/// Executable.
pub const EXECUTE: usize = 0x4;
/// Accessible from user (or guest) mode.
pub const USER: usize = 0x8;
/// Device memory.
pub const DEVICE: usize = 0x10;
/// Uncached memory.
pub const UNCACHED: usize = 0x20;
/// The bits that a mapping's flags may hold.
pub const MAPPING_FLAGS_ALL: usize = 0x3f;

/// Permission and attribute flags of a mapping.
#[derive(Debug, Clone, Copy, PartialEq, Eq, Structural)]
pub struct MappingFlags {
    pub bits: usize,
}

impl MappingFlags {
    /// The raw bits.
    pub open spec fn view(&self) -> usize {
        self.bits
    }

    /// Whether every bit of `b` is set in `a`.
    pub open spec fn includes(a: usize, b: usize) -> bool {
        a & b == b
    }

    /// The raw bits.
    pub fn bits(&self) -> (r: usize)
        ensures
            r == self@,
    {
        self.bits
    }

    /// No flag at all.
    pub fn empty() -> (r: MappingFlags)
        ensures
            r@ == 0,
    {
        MappingFlags { bits: 0 }
    }

    /// The flags of `bits`; `None` when a bit outside the known flags is set.
    pub fn from_bits(bits: usize) -> (r: Option<MappingFlags>)
        ensures
            r is Some <==> bits & !MAPPING_FLAGS_ALL == 0,
            r matches Some(f) ==> f@ == bits,
    {
        if bits & !MAPPING_FLAGS_ALL == 0 {
            Some(MappingFlags { bits })
        } else {
            None
        }
    }

    /// The flags set in either operand.
    pub fn union(self, other: MappingFlags) -> (r: MappingFlags)
        ensures
            r@ == self@ | other@,
    {
        MappingFlags { bits: self.bits | other.bits }
    }

    /// Whether every flag of `other` is set in `self`.
    pub fn contains(&self, other: MappingFlags) -> (r: bool)
        ensures
            r == Self::includes(self@, other@),
    {
        self.bits & other.bits == other.bits
    }

    /// Whether no flag is set.
    pub fn is_empty(&self) -> (r: bool)
        ensures
            r == (self@ == 0),
    {
        self.bits == 0
    }
}

} // verus!

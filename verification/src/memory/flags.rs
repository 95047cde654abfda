use vstd::prelude::*;

verus! {

/// Access rights and mapping attributes of a memory region, as a set of
/// independent bits.
#[derive(Debug, Clone, Copy, PartialEq, Eq, Structural)]
pub struct MemFlags {
    pub bits: u64,
}

pub const FLAG_READ: u64 = 0x1;

pub const FLAG_WRITE: u64 = 0x2;

pub const FLAG_EXECUTE: u64 = 0x4;

pub const FLAG_IO: u64 = 0x10;

pub const FLAG_NO_HUGEPAGES: u64 = 0x100;

/// Every bit that has a meaning.
pub const FLAG_ALL: u64 = 0x117;

impl MemFlags {
    /// Whether every bit of `other` is set in `self`.
    pub open spec fn has(self, other: MemFlags) -> bool {
        self.bits & other.bits == other.bits
    }

    /// Whether huge pages are forbidden for a region with these flags.
    pub open spec fn forbids_hugepages(self) -> bool {
        self.bits & FLAG_NO_HUGEPAGES != 0
    }

    pub fn empty() -> (flags: Self)
        ensures
            flags.bits == 0,
    {
        MemFlags { bits: 0 }
    }

    /// The region may be read.
    pub fn read() -> (flags: Self)
        ensures
            flags.bits == FLAG_READ,
    {
        MemFlags { bits: FLAG_READ }
    }

    /// The region may be written.
    pub fn write() -> (flags: Self)
        ensures
            flags.bits == FLAG_WRITE,
    {
        MemFlags { bits: FLAG_WRITE }
    }

    /// Instructions may be fetched from the region.
    pub fn execute() -> (flags: Self)
        ensures
            flags.bits == FLAG_EXECUTE,
    {
        MemFlags { bits: FLAG_EXECUTE }
    }

    /// The region is device memory and is not cached.
    pub fn io() -> (flags: Self)
        ensures
            flags.bits == FLAG_IO,
    {
        MemFlags { bits: FLAG_IO }
    }

    /// The region is mapped with the smallest pages only.
    pub fn no_hugepages() -> (flags: Self)
        ensures
            flags.bits == FLAG_NO_HUGEPAGES,
    {
        MemFlags { bits: FLAG_NO_HUGEPAGES }
    }

    /// The flags with the given bits; bits without a meaning are dropped.
    pub fn from_bits_truncate(bits: u64) -> (flags: Self)
        ensures
            flags.bits == bits & FLAG_ALL,
    {
        MemFlags { bits: bits & FLAG_ALL }
    }

    pub fn bits(&self) -> (bits: u64)
        ensures
            bits == self.bits,
    {
        self.bits
    }

    /// The flags that are set in `self` or in `other`.
    pub fn union(self, other: MemFlags) -> (flags: Self)
        ensures
            flags.bits == self.bits | other.bits,
            flags.has(self),
            flags.has(other),
    {
        let a: u64 = self.bits;
        let b: u64 = other.bits;
        assert((a | b) & a == a && (a | b) & b == b) by (bit_vector);
        MemFlags { bits: a | b }
    }

    pub fn contains(&self, other: MemFlags) -> (held: bool)
        ensures
            held == self.has(other),
    {
        self.bits & other.bits == other.bits
    }

    pub fn is_empty(&self) -> (none: bool)
        ensures
            none == (self.bits == 0),
    {
        self.bits == 0
    }

    /// Whether the region must be mapped with the smallest pages only.
    pub fn without_hugepages(&self) -> (forbidden: bool)
        ensures
            forbidden == self.forbids_hugepages(),
    {
        self.bits & FLAG_NO_HUGEPAGES != 0
    }
}

} // verus!

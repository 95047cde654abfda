use vstd::prelude::*;
use crate::memory::flags::MemFlags;

verus! {

/// Size of the smallest page of the stage-2 translation.
pub const PAGE_SIZE: u64 = 0x1000;

/// Size of a huge page: one block of the next translation level.
pub const HUGE_PAGE_SIZE: u64 = 0x20_0000;

/// A contiguous range of guest-physical addresses and the host-physical
/// range it is mapped to at a constant offset.
#[derive(Debug, Clone, Copy, PartialEq, Eq, Structural)]
pub struct MemoryRegion {
    /// First guest-physical address.
    pub start: u64,
    /// Host-physical address that `start` is mapped to.
    pub phys_start: u64,
    /// Length in bytes.
    pub size: u64,
    pub flags: MemFlags,
}

impl MemoryRegion {
    /// One past the last guest-physical address.
    pub open spec fn end(self) -> int {
        self.start + self.size
    }

    /// Whether the guest-physical address belongs to the region.
    pub open spec fn covers(self, addr: int) -> bool {
        self.start <= addr < self.end()
    }

    /// The host-physical address that a covered guest-physical address is
    /// mapped to.
    pub open spec fn target(self, addr: int) -> int {
        self.phys_start + (addr - self.start)
    }

    /// A region that a memory set accepts: not empty, made of whole pages on
    /// both sides, and inside the 64-bit address space on both sides.
    pub open spec fn valid(self) -> bool {
        &&& self.size > 0
        &&& self.start % PAGE_SIZE == 0
        &&& self.phys_start % PAGE_SIZE == 0
        &&& self.size % PAGE_SIZE == 0
        &&& self.start + self.size <= 0x1_0000_0000_0000_0000
        &&& self.phys_start + self.size <= 0x1_0000_0000_0000_0000
    }

    /// Whether the two guest-physical ranges intersect.
    pub open spec fn overlaps(self, other: MemoryRegion) -> bool {
        self.start < other.end() && other.start < self.end()
    }

    /// The region of `size` bytes at guest-physical `start`, mapped to the
    /// host-physical range that begins at `phys_start`.
    pub fn new_with_offset_mapper(start: u64, phys_start: u64, size: u64, flags: MemFlags) -> (region:
        Self)
        ensures
            region == (MemoryRegion { start, phys_start, size, flags }),
    {
        MemoryRegion { start, phys_start, size, flags }
    }

    pub fn is_valid(&self) -> (ok: bool)
        ensures
            ok == self.valid(),
    {
        self.size > 0 && self.start % PAGE_SIZE == 0 && self.phys_start % PAGE_SIZE == 0
            && self.size % PAGE_SIZE == 0 && self.size - 1 <= u64::MAX - self.start && self.size
            - 1 <= u64::MAX - self.phys_start
    }

    /// Whether the guest-physical ranges of two valid regions intersect.
    pub fn is_overlap_with(&self, other: &MemoryRegion) -> (hit: bool)
        requires
            self.valid(),
            other.valid(),
        ensures
            hit == self.overlaps(*other),
    {
        self.start <= other.start + (other.size - 1) && other.start <= self.start + (self.size
            - 1)
    }

    /// Whether the guest-physical address belongs to the region.
    pub fn contains(&self, addr: u64) -> (inside: bool)
        ensures
            inside == self.covers(addr as int),
    {
        self.start <= addr && addr - self.start < self.size
    }
}

/// Two regions overlap exactly when some guest-physical address belongs to
/// both.
pub proof fn lemma_overlap_shares_address(a: MemoryRegion, b: MemoryRegion)
    requires
        a.size > 0,
        b.size > 0,
    ensures
        a.overlaps(b) <==> exists|addr: int| a.covers(addr) && b.covers(addr),
{
    if a.overlaps(b) {
        let addr: int = if a.start <= b.start {
            b.start as int
        } else {
            a.start as int
        };
        assert(a.covers(addr) && b.covers(addr));
    }
}

} // verus!

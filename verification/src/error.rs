use vstd::prelude::*;

verus! {

/// What can go wrong while a cell is built or a core changes state.
#[derive(Debug, Clone, Copy, PartialEq, Eq, Structural)]
pub enum HvError {
    /// A memory region is empty, not page-aligned, or runs past the end of
    /// the address space.
    InvalidRegion,
    /// A memory region intersects one that the memory set already holds.
    Overlap,
    /// The stage-2 table has no room for the entries a region needs.
    PageTableExhausted,
    /// The MMIO tables of a cell are full.
    MmioCapacityExceeded,
    /// The core identifier has no slot in the per-core area.
    InvalidCpuId,
    /// The counter of entered cores cannot count one more.
    TooManyCpus,
    /// The core is not in a state from which the transition is allowed.
    InvalidState,
    /// A core that was asked to suspend has not answered in time.
    SuspendTimeout,
}

pub type HvResult<T = ()> = Result<T, HvError>;

} // verus!

//! Guest-physical memory of a cell: regions, the ordered set of them, and the
//! stage-2 table that the set is built against.

pub mod flags;
pub mod paging;
pub mod region;
pub mod set;

pub use flags::MemFlags;
pub use region::{MemoryRegion, HUGE_PAGE_SIZE, PAGE_SIZE};

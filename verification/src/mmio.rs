use vstd::prelude::*;

verus! {

/// MMIO region coordinates.
#[derive(Debug, Clone, Copy, PartialEq, Eq, Structural)]
pub struct MMIORegionLocation {
    /// Start address of the region.
    pub start: u64,
    /// Region size.
    pub size: u64,
}

impl MMIORegionLocation {
    /// The empty location at address zero.
    pub fn new() -> (loc: Self)
        ensures
            loc.start == 0,
            loc.size == 0,
    {
        Self { start: 0, size: 0 }
    }
}

/// MMIO region access handler description. The dispatch function is not
/// wired up yet, so a handler carries nothing.
#[derive(Debug, Clone, Copy, PartialEq, Eq, Structural)]
pub struct MMIORegionHandler {}

impl MMIORegionHandler {
    pub fn new() -> (handler: Self)
        ensures
            handler == (MMIORegionHandler {}),
    {
        Self {}
    }
}

} // verus!

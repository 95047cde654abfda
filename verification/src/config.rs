use vstd::prelude::*;

verus! {

/// A range of memory as the platform description gives it.
#[derive(Debug, Clone, Copy, PartialEq, Eq, Structural)]
pub struct HvMemoryRegion {
    /// Host-physical address of the first byte.
    pub phys_start: u64,
    /// Address at which the owner sees the first byte.
    pub virt_start: u64,
    /// Length in bytes.
    pub size: u64,
}

/// What the platform description says of the machine.
#[derive(Debug, Clone, Copy, PartialEq, Eq, Structural)]
pub struct PlatformInfo {
    /// Base of the PCI extended configuration space.
    pub pci_mmconfig_base: u64,
    /// Last bus that the configuration space describes.
    pub pci_mmconfig_end_bus: u8,
}

/// Description of one cell.
#[derive(Debug)]
pub struct CellConfig {
    /// Identifier of the cell.
    pub id: u32,
    /// General RAM of the cell.
    pub mem_regions: Vec<HvMemoryRegion>,
}

/// The system description that the boot code hands over.
#[derive(Debug)]
pub struct HvSystemConfig {
    /// Memory that the hypervisor itself occupies.
    pub hypervisor_memory: HvMemoryRegion,
    pub platform_info: PlatformInfo,
    pub root_cell: CellConfig,
}

/// Bytes of configuration space that one PCI bus takes: 256 functions of
/// 4 KiB each.
pub const PCI_BUS_CONFIG_SIZE: u64 = 0x10_0000;

impl PlatformInfo {
    /// Length in bytes of the PCI extended configuration space.
    pub open spec fn mmconfig_size_spec(self) -> u64 {
        ((self.pci_mmconfig_end_bus + 1) * PCI_BUS_CONFIG_SIZE) as u64
    }

    /// Length in bytes of the PCI extended configuration space.
    pub fn mmconfig_size(&self) -> (size: u64)
        ensures
            size == self.mmconfig_size_spec(),
            size == (self.pci_mmconfig_end_bus + 1) * 0x10_0000,
    {
        let buses: u64 = self.pci_mmconfig_end_bus as u64 + 1;
        buses * PCI_BUS_CONFIG_SIZE
    }
}

} // verus!

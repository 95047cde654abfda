//! Control core of a partitioning hypervisor: cells with their guest-physical
//! memory sets, the MMIO region registry of a cell, and the per-core
//! virtualization lifecycle.

pub mod arch;
pub mod cell;
pub mod config;
pub mod cpuset;
pub mod error;
pub mod memory;
pub mod mmio;
pub mod percpu;

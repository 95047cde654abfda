use vstd::prelude::*;

verus! {

/// Describes a CPU set.
#[derive(Debug)]
pub struct CpuSet {
    /// Maximum CPU ID expressible with this set.
    pub max_cpu_id: u64,
    /// Bitmap of CPUs in the set.
    pub bitmap: [u64; 1],
}

} // verus!

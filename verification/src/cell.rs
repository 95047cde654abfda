use vstd::prelude::*;
use crate::config::{CellConfig, HvSystemConfig};
use crate::error::HvError;
use crate::memory::flags::{MemFlags, FLAG_IO, FLAG_NO_HUGEPAGES, FLAG_READ, FLAG_WRITE};
use crate::memory::region::MemoryRegion;
use crate::memory::paging::region_entries;
use crate::memory::set::{insert_each, insert_outcome, slot_for, MemorySet, DEFAULT_TABLE_CAPACITY};
use crate::mmio::{MMIORegionHandler, MMIORegionLocation};
use crate::percpu::{CpuPhase, PerCpu};

verus! {

/// `spin::relax::Spin`, the way in which the locks of `spin` wait; it only
/// ever stands as a type parameter.
#[verifier::external_type_specification]
#[verifier::external_body]
pub struct ExSpin(spin::relax::Spin);

/// `spin::mutex::Mutex`, carried as a value that nothing is known of.
#[verifier::external_type_specification]
#[verifier::external_body]
#[verifier::reject_recursive_types(T)]
#[verifier::reject_recursive_types(R)]
pub struct ExMutex<T: ?Sized, R>(spin::mutex::Mutex<T, R>);

/// `spin::once::Once`, of which only `once_contents` speaks.
#[verifier::external_type_specification]
#[verifier::external_body]
#[verifier::reject_recursive_types(T)]
#[verifier::reject_recursive_types(R)]
pub struct ExOnce<T, R>(spin::once::Once<T, R>);

/// Calls `spin::Mutex::new` on the unit value: a lock that nobody holds and
/// that guards no data of its own.
#[verifier::external_body]
fn new_region_lock() -> (lock: spin::Mutex<()>) {
    spin::Mutex::new(())
}

/// Calls `spin::Mutex::get_mut`, which hands out what the lock guards
/// without locking: the exclusive borrow already shows that nobody holds the
/// lock. The mutex itself is left as it was.
#[verifier::external_body]
fn enter_region_lock(lock: &mut spin::Mutex<()>)
    ensures
        *final(lock) == *old(lock),
{
    let _guarded: &mut () = lock.get_mut();
}

/// What a `spin::Once` that holds a cell has been initialised with: one
/// cell, or none while it is not initialised.
pub uninterp spec fn once_contents(once: spin::Once<Cell>) -> Seq<Cell>;

/// Calls `spin::Once::new`: a `Once` that is not initialised.
#[verifier::external_body]
fn once_empty() -> (once: spin::Once<Cell>)
    ensures
        once_contents(once).len() == 0,
{
    spin::Once::new()
}

/// Calls `spin::Once::call_once` with a closure that hands over `cell`. A
/// `Once` that is not initialised takes the cell; one that is initialised
/// keeps what it has and the closure is not run. `call_once` waits while
/// another initialisation runs and panics on a `Once` whose initialisation
/// has panicked: the exclusive borrow shows that none is running, and the
/// only `Once` that comes here is the one inside a `RootCell`, which no
/// closure but this one, which cannot panic, has ever been run on.
#[verifier::external_body]
fn once_publish(once: &mut spin::Once<Cell>, cell: Cell)
    ensures
        once_contents(*old(once)).len() == 0 ==> once_contents(*final(once)) == seq![cell],
        once_contents(*old(once)).len() > 0 ==> once_contents(*final(once)) == once_contents(
            *old(once),
        ),
{
    once.call_once(move || cell);
}

/// Calls `spin::Once::get`: the cell that the `Once` was initialised with,
/// or nothing while it is not initialised.
#[verifier::external_body]
fn once_get(once: &spin::Once<Cell>) -> (found: Option<&Cell>)
    ensures
        found.is_some() == (once_contents(*once).len() > 0),
        found.is_some() ==> *found.unwrap() == once_contents(*once)[0],
{
    once.get()
}

/// State of a cell.
#[derive(Debug, Clone, Copy, PartialEq, Eq, Structural)]
pub enum CellState {
    HVCellRunning,
    HVCellRunningLocked,
    HVCellShutDown,
    HVCellFailed,
    HVCellFailedCommRev,
}

impl CellState {
    /// The number that stands for the state in the interface to the
    /// management tools.
    pub open spec fn code(self) -> u64 {
        match self {
            CellState::HVCellRunning => 0,
            CellState::HVCellRunningLocked => 1,
            CellState::HVCellShutDown => 2,
            CellState::HVCellFailed => 3,
            CellState::HVCellFailedCommRev => 4,
        }
    }

    pub fn to_u64(self) -> (code: u64)
        ensures
            code == self.code(),
    {
        match self {
            CellState::HVCellRunning => 0,
            CellState::HVCellRunningLocked => 1,
            CellState::HVCellShutDown => 2,
            CellState::HVCellFailed => 3,
            CellState::HVCellFailedCommRev => 4,
        }
    }

    /// The state that a number stands for, if it stands for one.
    pub fn from_u64(code: u64) -> (state: Option<CellState>)
        ensures
            code <= 4 <==> state.is_some(),
            state.is_some() ==> state.unwrap().code() == code,
    {
        if code == 0 {
            Some(CellState::HVCellRunning)
        } else if code == 1 {
            Some(CellState::HVCellRunningLocked)
        } else if code == 2 {
            Some(CellState::HVCellShutDown)
        } else if code == 3 {
            Some(CellState::HVCellFailed)
        } else if code == 4 {
            Some(CellState::HVCellFailedCommRev)
        } else {
            None
        }
    }

    /// Whether a cell in this state runs; a locked cell runs too, but takes
    /// no change of configuration.
    pub fn is_active(self) -> (active: bool)
        ensures
            active == (self == CellState::HVCellRunning || self == CellState::HVCellRunningLocked),
    {
        match self {
            CellState::HVCellRunning => true,
            CellState::HVCellRunningLocked => true,
            _ => false,
        }
    }

    /// Whether a cell in this state has come to its end.
    pub fn is_terminal(self) -> (ended: bool)
        ensures
            ended == !(self == CellState::HVCellRunning || self
                == CellState::HVCellRunningLocked),
    {
        !self.is_active()
    }
}

/// The region that maps the hypervisor's own memory into the root cell.
pub open spec fn hypervisor_region(config: HvSystemConfig) -> MemoryRegion {
    MemoryRegion {
        start: config.hypervisor_memory.phys_start,
        phys_start: config.hypervisor_memory.phys_start,
        size: config.hypervisor_memory.size,
        flags: MemFlags { bits: FLAG_READ | FLAG_NO_HUGEPAGES },
    }
}

/// The `i`-th region of general RAM of the root cell.
pub open spec fn ram_region(config: HvSystemConfig, i: int) -> MemoryRegion {
    MemoryRegion {
        start: config.root_cell.mem_regions@[i].virt_start,
        phys_start: config.root_cell.mem_regions@[i].phys_start,
        size: config.root_cell.mem_regions@[i].size,
        flags: MemFlags { bits: FLAG_READ | FLAG_WRITE },
    }
}

/// The region that maps the PCI extended configuration space.
pub open spec fn mmconfig_region(config: HvSystemConfig) -> MemoryRegion {
    MemoryRegion {
        start: config.platform_info.pci_mmconfig_base,
        phys_start: config.platform_info.pci_mmconfig_base,
        size: config.platform_info.mmconfig_size_spec(),
        flags: MemFlags { bits: FLAG_READ | FLAG_WRITE | FLAG_IO },
    }
}

/// The regions of the root cell in the order in which they are inserted:
/// the hypervisor's memory, general RAM, the PCI configuration space.
pub open spec fn root_plan(config: HvSystemConfig) -> Seq<MemoryRegion> {
    Seq::new(
        config.root_cell.mem_regions@.len() + 2,
        |i: int|
            if i == 0 {
                hypervisor_region(config)
            } else if i <= config.root_cell.mem_regions@.len() {
                ram_region(config, i - 1)
            } else {
                mmconfig_region(config)
            },
    )
}

/// Whether the address lies in the trapped range.
pub open spec fn location_holds(location: MMIORegionLocation, addr: u64) -> bool {
    location.start <= addr && addr - location.start < location.size
}

/// What is kept of a sequence with one more element is what is kept of the
/// sequence, and the element behind it where it is kept too.
proof fn filter_push(s: Seq<PerCpu>, last: PerCpu, keep: spec_fn(PerCpu) -> bool)
    ensures
        s.push(last).filter(keep) == if keep(last) {
            s.filter(keep).push(last)
        } else {
            s.filter(keep)
        },
{
    reveal(Seq::filter);
    assert(s.push(last).drop_last() == s);
}

/// A partition of the machine: its guest-physical memory, its MMIO
/// registry, and what the management tools may still do with it.
#[derive(Debug)]
pub struct Cell {
    /// Cell configuration.
    config: CellConfig,
    /// Guest physical memory set.
    gpm: MemorySet,
    /// Lock protecting changes to mmio_locations, mmio_handlers, and
    /// num_mmio_regions.
    mmio_region_lock: spin::Mutex<()>,
    /// Generation counter of mmio_locations, mmio_handlers, and
    /// num_mmio_regions.
    mmio_generation: u64,
    /// Number of pages used for storing cell-specific states and
    /// configuration data.
    data_pages: u64,
    /// True while the cell can be loaded by the root cell.
    loadable: bool,
    /// MMIO region description table.
    mmio_locations: Vec<MMIORegionLocation>,
    /// MMIO region handler table.
    mmio_handlers: Vec<MMIORegionHandler>,
    /// Number of MMIO regions in use.
    num_mmio_regions: u32,
    /// Maximum number of MMIO regions.
    max_mmio_regions: u32,
}

impl Cell {
    pub closed spec fn spec_config(&self) -> CellConfig {
        self.config
    }

    pub closed spec fn spec_gpm(&self) -> MemorySet {
        self.gpm
    }

    pub closed spec fn spec_mmio_generation(&self) -> u64 {
        self.mmio_generation
    }

    pub closed spec fn spec_data_pages(&self) -> u64 {
        self.data_pages
    }

    pub closed spec fn spec_loadable(&self) -> bool {
        self.loadable
    }

    /// The MMIO location table, one entry for each region in use.
    pub closed spec fn spec_mmio_locations(&self) -> Seq<MMIORegionLocation> {
        self.mmio_locations@
    }

    /// The MMIO handler table, one entry for each region in use.
    pub closed spec fn spec_mmio_handlers(&self) -> Seq<MMIORegionHandler> {
        self.mmio_handlers@
    }

    pub closed spec fn spec_num_mmio_regions(&self) -> u32 {
        self.num_mmio_regions
    }

    pub closed spec fn spec_max_mmio_regions(&self) -> u32 {
        self.max_mmio_regions
    }

    /// The memory set is well formed; the two MMIO tables have one entry for
    /// each region in use and no more regions are in use than the cell can
    /// take; the generation counter has counted each registration.
    pub open spec fn wf(&self) -> bool {
        &&& self.spec_gpm().wf()
        &&& self.spec_num_mmio_regions() <= self.spec_max_mmio_regions()
        &&& self.spec_mmio_locations().len() == self.spec_num_mmio_regions()
        &&& self.spec_mmio_handlers().len() == self.spec_num_mmio_regions()
        &&& self.spec_mmio_generation() == self.spec_num_mmio_regions()
    }

    /// Whether the cell is the root cell as it is built from the system
    /// description: the memory set holds the regions of `root_plan`, no MMIO
    /// region is in use and none can be taken, and the cell is not loadable.
    pub open spec fn is_root_of(&self, config: HvSystemConfig) -> bool {
        let built = insert_each(
            Seq::empty(),
            Seq::empty(),
            DEFAULT_TABLE_CAPACITY as nat,
            root_plan(config),
        );
        &&& self.wf()
        &&& self.spec_config() == config.root_cell
        &&& self.spec_gpm()@ == built.regions
        &&& self.spec_gpm().table()@ == built.entries
        &&& self.spec_gpm().table().limit() == DEFAULT_TABLE_CAPACITY
        &&& self.spec_num_mmio_regions() == 0
        &&& self.spec_max_mmio_regions() == 0
        &&& self.spec_mmio_generation() == 0
        &&& self.spec_data_pages() == 0
        &&& !self.spec_loadable()
    }

    /// A cell with the given memory set and room for `max_mmio_regions`
    /// MMIO regions, none of them in use.
    pub fn new(config: CellConfig, gpm: MemorySet, max_mmio_regions: u32) -> (cell: Self)
        requires
            gpm.wf(),
        ensures
            cell.wf(),
            cell.spec_config() == config,
            cell.spec_gpm() == gpm,
            cell.spec_num_mmio_regions() == 0,
            cell.spec_max_mmio_regions() == max_mmio_regions,
            cell.spec_mmio_generation() == 0,
            cell.spec_data_pages() == 0,
            !cell.spec_loadable(),
    {
        Cell {
            config,
            gpm,
            mmio_region_lock: new_region_lock(),
            mmio_generation: 0,
            data_pages: 0,
            loadable: false,
            mmio_locations: Vec::new(),
            mmio_handlers: Vec::new(),
            num_mmio_regions: 0,
            max_mmio_regions,
        }
    }

    pub fn config(&self) -> (config: &CellConfig)
        ensures
            *config == self.spec_config(),
    {
        &self.config
    }

    pub fn gpm(&self) -> (gpm: &MemorySet)
        ensures
            *gpm == self.spec_gpm(),
    {
        &self.gpm
    }

    pub fn mmio_generation(&self) -> (generation: u64)
        ensures
            generation == self.spec_mmio_generation(),
    {
        self.mmio_generation
    }

    pub fn data_pages(&self) -> (pages: u64)
        ensures
            pages == self.spec_data_pages(),
    {
        self.data_pages
    }

    pub fn loadable(&self) -> (loadable: bool)
        ensures
            loadable == self.spec_loadable(),
    {
        self.loadable
    }

    pub fn num_mmio_regions(&self) -> (n: u32)
        ensures
            n == self.spec_num_mmio_regions(),
    {
        self.num_mmio_regions
    }

    pub fn max_mmio_regions(&self) -> (n: u32)
        ensures
            n == self.spec_max_mmio_regions(),
    {
        self.max_mmio_regions
    }

    /// Where the MMIO region with the given index lies, if the index is in
    /// use.
    pub fn mmio_location(&self, index: u32) -> (found: Option<MMIORegionLocation>)
        requires
            self.wf(),
        ensures
            found == if index < self.spec_num_mmio_regions() {
                Some(self.spec_mmio_locations()[index as int])
            } else {
                None
            },
    {
        if index < self.num_mmio_regions {
            Some(self.mmio_locations[index as usize])
        } else {
            None
        }
    }

    /// The handler of the MMIO region with the given index, if the index is
    /// in use.
    pub fn mmio_handler(&self, index: u32) -> (found: Option<MMIORegionHandler>)
        requires
            self.wf(),
        ensures
            found == if index < self.spec_num_mmio_regions() {
                Some(self.spec_mmio_handlers()[index as int])
            } else {
                None
            },
    {
        if index < self.num_mmio_regions {
            Some(self.mmio_handlers[index as usize])
        } else {
            None
        }
    }

    /// Adds a region to the guest-physical memory of the cell, as
    /// `MemorySet::insert` does; nothing else of the cell changes, and a
    /// region that is refused changes nothing at all.
    pub fn map_region(&mut self, region: MemoryRegion) -> (res: Result<(), HvError>)
        requires
            old(self).wf(),
        ensures
            final(self).wf(),
            res == insert_outcome(
                old(self).spec_gpm()@,
                old(self).spec_gpm().table()@.len(),
                old(self).spec_gpm().table().limit(),
                region,
            ),
            res.is_ok() ==> {
                &&& final(self).spec_gpm()@ == old(self).spec_gpm()@.insert(
                    slot_for(old(self).spec_gpm()@, region.start),
                    region,
                )
                &&& final(self).spec_gpm().table()@ == old(self).spec_gpm().table()@
                    + region_entries(region)
                &&& final(self).spec_gpm().table().limit() == old(self).spec_gpm().table().limit()
                &&& final(self).spec_config() == old(self).spec_config()
                &&& final(self).spec_mmio_locations() == old(self).spec_mmio_locations()
                &&& final(self).spec_mmio_handlers() == old(self).spec_mmio_handlers()
                &&& final(self).spec_num_mmio_regions() == old(self).spec_num_mmio_regions()
                &&& final(self).spec_max_mmio_regions() == old(self).spec_max_mmio_regions()
                &&& final(self).spec_mmio_generation() == old(self).spec_mmio_generation()
                &&& final(self).spec_data_pages() == old(self).spec_data_pages()
                &&& final(self).spec_loadable() == old(self).spec_loadable()
            },
            res.is_err() ==> *final(self) == *old(self),
    {
        self.gpm.insert(region)
    }

    /// Registers an MMIO region with its handler at the next free index.
    /// While the tables have room, the pair is appended, the number of
    /// regions and the generation counter go up by one, and the index is
    /// returned. Full tables refuse the pair and the cell stays as it was.
    pub fn register_mmio_region(
        &mut self,
        location: MMIORegionLocation,
        handler: MMIORegionHandler,
    ) -> (res: Result<u32, HvError>)
        requires
            old(self).wf(),
        ensures
            final(self).wf(),
            old(self).spec_num_mmio_regions() < old(self).spec_max_mmio_regions() ==> {
                &&& res == Ok::<u32, HvError>(old(self).spec_num_mmio_regions())
                &&& final(self).spec_mmio_locations() == old(self).spec_mmio_locations().push(
                    location,
                )
                &&& final(self).spec_mmio_handlers() == old(self).spec_mmio_handlers().push(
                    handler,
                )
                &&& final(self).spec_num_mmio_regions() == old(self).spec_num_mmio_regions() + 1
                &&& final(self).spec_mmio_generation() == old(self).spec_mmio_generation() + 1
                &&& final(self).spec_max_mmio_regions() == old(self).spec_max_mmio_regions()
                &&& final(self).spec_gpm() == old(self).spec_gpm()
                &&& final(self).spec_config() == old(self).spec_config()
                &&& final(self).spec_data_pages() == old(self).spec_data_pages()
                &&& final(self).spec_loadable() == old(self).spec_loadable()
            },
            old(self).spec_num_mmio_regions() >= old(self).spec_max_mmio_regions() ==> {
                &&& res == Err::<u32, HvError>(HvError::MmioCapacityExceeded)
                &&& *final(self) == *old(self)
            },
    {
        enter_region_lock(&mut self.mmio_region_lock);
        if self.num_mmio_regions >= self.max_mmio_regions {
            return Err(HvError::MmioCapacityExceeded);
        }
        let index: u32 = self.num_mmio_regions;
        self.mmio_locations.push(location);
        self.mmio_handlers.push(handler);
        self.num_mmio_regions = index + 1;
        self.mmio_generation = self.mmio_generation + 1;
        Ok(index)
    }

    /// The index of the first MMIO region in use that holds the address.
    pub fn find_mmio_region(&self, addr: u64) -> (found: Option<u32>)
        requires
            self.wf(),
        ensures
            match found {
                Some(index) => {
                    &&& index < self.spec_num_mmio_regions()
                    &&& location_holds(self.spec_mmio_locations()[index as int], addr)
                    &&& forall|j: int|
                        0 <= j < index ==> !location_holds(
                            #[trigger] self.spec_mmio_locations()[j],
                            addr,
                        )
                },
                None => forall|j: int|
                    0 <= j < self.spec_num_mmio_regions() ==> !location_holds(
                        #[trigger] self.spec_mmio_locations()[j],
                        addr,
                    ),
            },
    {
        let mut i: u32 = 0;
        while i < self.num_mmio_regions
            invariant
                i <= self.num_mmio_regions,
                self.mmio_locations@.len() == self.num_mmio_regions,
                forall|j: int|
                    0 <= j < i ==> !location_holds(#[trigger] self.mmio_locations@[j], addr),
            decreases self.num_mmio_regions - i,
        {
            let location = self.mmio_locations[i as usize];
            if location.start <= addr && addr - location.start < location.size {
                return Some(i);
            }
            i = i + 1;
        }
        None
    }

    /// Whether the MMIO tables are as they were when the generation counter
    /// read `generation`: a reader that sees `false` has to look again.
    pub fn mmio_unchanged_since(&self, generation: u64) -> (same: bool)
        ensures
            same == (self.spec_mmio_generation() == generation),
    {
        self.mmio_generation == generation
    }

    /// Whether the core serves this cell.
    pub open spec fn served_by(&self, cpu: PerCpu) -> bool {
        cpu.spec_cell() == Some(self.spec_config().id)
    }

    /// Asks every core that serves this cell to stop its guest at the next
    /// point where that is safe. The cores answer on their own, each when
    /// it polls its request; `cell_suspended` tells when all have, and
    /// `cell_suspend_outcome` gives the result once the caller has waited
    /// as long as it means to. Nothing here waits. Returns the number of
    /// cores asked.
    pub fn cell_suspend(&self, cpus: &mut Vec<PerCpu>) -> (asked: usize)
        requires
            forall|i: int| 0 <= i < old(cpus)@.len() ==> (#[trigger] old(cpus)@[i]).wf(),
        ensures
            final(cpus)@.len() == old(cpus)@.len(),
            forall|i: int|
                0 <= i < final(cpus)@.len() ==> {
                    &&& (#[trigger] final(cpus)@[i]).wf()
                    &&& final(cpus)@[i].same_but_request(old(cpus)@[i])
                    &&& final(cpus)@[i].spec_suspend_cpu() == (old(cpus)@[i].spec_suspend_cpu()
                        || self.served_by(old(cpus)@[i]))
                },
            asked == old(cpus)@.filter(|cpu: PerCpu| self.served_by(cpu)).len(),
    {
        let ghost before = cpus@;
        let mut asked: usize = 0;
        let mut i: usize = 0;
        while i < cpus.len()
            invariant
                i <= cpus@.len(),
                cpus@.len() == before.len(),
                before == old(cpus)@,
                asked <= i,
                asked == before.subrange(0, i as int).filter(
                    |cpu: PerCpu| self.served_by(cpu),
                ).len(),
                forall|k: int| 0 <= k < before.len() ==> (#[trigger] before[k]).wf(),
                forall|k: int| i <= k < cpus@.len() ==> cpus@[k] == before[k],
                forall|k: int|
                    0 <= k < i ==> {
                        &&& (#[trigger] cpus@[k]).wf()
                        &&& cpus@[k].same_but_request(before[k])
                        &&& cpus@[k].spec_suspend_cpu() == (before[k].spec_suspend_cpu()
                            || self.served_by(before[k]))
                    },
            decreases cpus@.len() - i,
        {
            let mut cpu = cpus[i];
            let serves = match cpu.cell() {
                Some(id) => id == self.config.id,
                None => false,
            };
            proof {
                let head = before.subrange(0, i as int);
                assert(before.subrange(0, i + 1) == head.push(before[i as int]));
                filter_push(head, before[i as int], |c: PerCpu| self.served_by(c));
            }
            if serves {
                cpu.set_suspend_request(true);
                cpus.set(i, cpu);
                asked = asked + 1;
            }
            i = i + 1;
        }
        assert(before.subrange(0, i as int) == before);
        asked
    }

    /// Whether the core has stopped running a guest for this cell: it does
    /// not serve the cell, or it runs no guest (it has only entered, is
    /// parked after a failure, or has returned to the host), or it has
    /// answered a request to suspend that still stands.
    pub open spec fn stopped(&self, cpu: PerCpu) -> bool {
        self.served_by(cpu) && (cpu.spec_phase() == CpuPhase::Activated || cpu.spec_phase()
            == CpuPhase::Suspended) ==> cpu.spec_suspend_cpu() && cpu.spec_cpu_suspended()
    }

    /// Whether every core has stopped running a guest for this cell.
    pub open spec fn all_stopped(&self, cpus: Seq<PerCpu>) -> bool {
        forall|i: int| 0 <= i < cpus.len() ==> self.stopped(#[trigger] cpus[i])
    }

    /// Whether every core has stopped running a guest for this cell: what a
    /// caller looks at while it waits for the answers to `cell_suspend`.
    pub fn cell_suspended(&self, cpus: &Vec<PerCpu>) -> (stopped: bool)
        ensures
            stopped == self.all_stopped(cpus@),
    {
        let mut i: usize = 0;
        while i < cpus.len()
            invariant
                i <= cpus@.len(),
                forall|k: int| 0 <= k < i ==> self.stopped(#[trigger] cpus@[k]),
            decreases cpus@.len() - i,
        {
            let cpu = cpus[i];
            let serves = match cpu.cell() {
                Some(id) => id == self.config.id,
                None => false,
            };
            let runs = cpu.phase() == CpuPhase::Activated || cpu.phase() == CpuPhase::Suspended;
            if serves && runs && !(cpu.suspend_cpu() && cpu.cpu_suspended()) {
                assert(!self.stopped(cpus@[i as int]));
                return false;
            }
            i = i + 1;
        }
        true
    }

    /// The outcome of a suspension of the cell, given the cores as they are
    /// when the caller has waited as long as it means to: success where
    /// every core that serves the cell and runs a guest was asked to suspend
    /// and shows that it has, and `SuspendTimeout` where one of them has not
    /// answered.
    pub fn cell_suspend_outcome(&self, cpus: &Vec<PerCpu>) -> (res: Result<(), HvError>)
        ensures
            self.all_stopped(cpus@) ==> res == Ok::<(), HvError>(()),
            !self.all_stopped(cpus@) ==> res == Err::<(), HvError>(HvError::SuspendTimeout),
    {
        if self.cell_suspended(cpus) {
            Ok(())
        } else {
            Err(HvError::SuspendTimeout)
        }
    }

    /// Builds the root cell from the system description. The memory set
    /// takes, in this order, the hypervisor's own memory (read-only, small
    /// pages), each region of general RAM (read and write), and the PCI
    /// configuration space (read, write, device memory). The first region
    /// that the memory set refuses ends the construction with its error.
    pub fn new_root(sys_config: HvSystemConfig) -> (res: Result<Cell, HvError>)
        ensures
            match res {
                Ok(cell) => cell.is_root_of(sys_config),
                Err(e) => insert_each(
                    Seq::empty(),
                    Seq::empty(),
                    DEFAULT_TABLE_CAPACITY as nat,
                    root_plan(sys_config),
                ).outcome == Err::<(), HvError>(e),
            },
            res.is_ok() <==> insert_each(
                Seq::empty(),
                Seq::empty(),
                DEFAULT_TABLE_CAPACITY as nat,
                root_plan(sys_config),
            ).outcome.is_ok(),
    {
        let mmcfg_start: u64 = sys_config.platform_info.pci_mmconfig_base;
        let mmcfg_size: u64 = sys_config.platform_info.mmconfig_size();
        let hv_phys_start: u64 = sys_config.hypervisor_memory.phys_start;
        let hv_phys_size: u64 = sys_config.hypervisor_memory.size;

        let mut plan: Vec<MemoryRegion> = Vec::new();
        plan.push(
            MemoryRegion::new_with_offset_mapper(
                hv_phys_start,
                hv_phys_start,
                hv_phys_size,
                MemFlags::read().union(MemFlags::no_hugepages()),
            ),
        );
        let mut i: usize = 0;
        while i < sys_config.root_cell.mem_regions.len()
            invariant
                i <= sys_config.root_cell.mem_regions@.len(),
                plan@.len() == i + 1,
                forall|k: int| 0 <= k < plan@.len() ==> plan@[k] == root_plan(sys_config)[k],
            decreases sys_config.root_cell.mem_regions.len() - i,
        {
            let ram = sys_config.root_cell.mem_regions[i];
            plan.push(
                MemoryRegion::new_with_offset_mapper(
                    ram.virt_start,
                    ram.phys_start,
                    ram.size,
                    MemFlags::read().union(MemFlags::write()),
                ),
            );
            i = i + 1;
        }
        plan.push(
            MemoryRegion::new_with_offset_mapper(
                mmcfg_start,
                mmcfg_start,
                mmcfg_size,
                MemFlags::read().union(MemFlags::write()).union(MemFlags::io()),
            ),
        );
        assert(plan@ == root_plan(sys_config));

        let mut gpm = MemorySet::new();
        assert(gpm@ =~= Seq::empty());
        assert(gpm.table()@ =~= Seq::empty());
        match gpm.insert_all(&plan) {
            Ok(_) => {},
            Err(e) => {
                return Err(e);
            },
        }
        Ok(Cell::new(sys_config.root_cell, gpm, 0))
    }
}

/// The place of the root cell: empty until `init` publishes the cell, and
/// then the same cell for good.
pub struct RootCell {
    once: spin::Once<Cell>,
}

impl RootCell {
    /// The root cell, once it is published.
    pub closed spec fn published(&self) -> Option<Cell> {
        if once_contents(self.once).len() > 0 {
            Some(once_contents(self.once)[0])
        } else {
            None
        }
    }

    /// A place that holds no root cell yet.
    pub fn new() -> (slot: Self)
        ensures
            slot.published().is_none(),
    {
        RootCell { once: once_empty() }
    }

    /// The root cell, or nothing before `init` has published one.
    pub fn get(&self) -> (found: Option<&Cell>)
        ensures
            found.is_some() == self.published().is_some(),
            found.is_some() ==> *found.unwrap() == self.published().unwrap(),
    {
        once_get(&self.once)
    }

    pub fn is_initialized(&self) -> (done: bool)
        ensures
            done == self.published().is_some(),
    {
        once_get(&self.once).is_some()
    }
}

/// The root cell. Asking for it before `init` has published one is an error
/// of the caller that nothing can mend: the precondition rules it out.
pub fn root_cell(slot: &RootCell) -> (cell: &Cell)
    requires
        slot.published().is_some(),
    ensures
        *cell == slot.published().unwrap(),
{
    slot.get().unwrap()
}

/// Publishes the root cell in `slot`, once. Where a root cell is published
/// there already, nothing is built and nothing changes, whatever the system
/// description says: the call succeeds and the cell stays the one it was.
/// Otherwise the root cell is built from the system description and
/// published; a description from which no root cell can be built gives the
/// error of `Cell::new_root` and leaves `slot` empty.
pub fn init(slot: &mut RootCell, sys_config: HvSystemConfig) -> (res: Result<(), HvError>)
    ensures
        old(slot).published().is_some() ==> res.is_ok() && *final(slot) == *old(slot),
        old(slot).published().is_none() ==> {
            &&& res.is_ok() <==> insert_each(
                Seq::empty(),
                Seq::empty(),
                DEFAULT_TABLE_CAPACITY as nat,
                root_plan(sys_config),
            ).outcome.is_ok()
            &&& res.is_err() ==> res == insert_each(
                Seq::empty(),
                Seq::empty(),
                DEFAULT_TABLE_CAPACITY as nat,
                root_plan(sys_config),
            ).outcome
            &&& res.is_err() ==> *final(slot) == *old(slot)
            &&& res.is_ok() ==> final(slot).published().is_some()
            &&& res.is_ok() ==> final(slot).published().unwrap().is_root_of(sys_config)
        },
{
    if slot.is_initialized() {
        return Ok(());
    }
    let root_cell = match Cell::new_root(sys_config) {
        Ok(cell) => cell,
        Err(e) => {
            return Err(e);
        },
    };
    once_publish(&mut slot.once, root_cell);
    Ok(())
}

} // verus!

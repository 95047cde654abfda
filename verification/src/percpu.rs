use vstd::prelude::*;
use crate::arch::{
    hcr_guest_mode, hcr_guest_mode_bits, set_vtcr_flags, vtcr_stage2_flags, HCR_HOST_VALUE,
    VTCR_HOST_VALUE,
};
use crate::error::HvError;

verus! {

pub const JAILHOUSE_NUM_CPU_STATS: usize = 10;

/// Bytes of the slot that each core has in the per-core area: its context
/// at the bottom, its stack and the saved guest registers at the top.
pub const PER_CPU_SIZE: u64 = 0x8_0000;

/// Bytes at the top of a slot that hold the guest's saved registers.
pub const GUEST_REGS_SIZE: u64 = 0x100;

/// Distance between the hypervisor's view of memory and the host's, used
/// when a core returns to the host.
pub const HOST_PAGE_OFFSET: u64 = 0xffff_4060_0000;

/// No shutdown is in progress.
pub const SHUTDOWN_NONE: i32 = 0;

/// A shutdown is in progress.
pub const SHUTDOWN_STARTED: i32 = 1;

/// The general-purpose registers of a guest as they are saved on a trap.
#[derive(Debug, Default)]
pub struct GeneralRegisters {
    pub exit_reason: u64,
    pub usr: [u64; 31],
}

/// The two counters that all cores share: how many cores have entered the
/// hypervisor, and how many of them run a guest.
#[derive(Debug, Clone, Copy, PartialEq, Eq, Structural)]
pub struct CpuCounters {
    pub entered: u32,
    pub activated: u32,
}

impl CpuCounters {
    /// No more cores run a guest than have entered.
    pub open spec fn wf(&self) -> bool {
        self.activated <= self.entered
    }

    /// The counters after one more core has entered.
    pub open spec fn after_enter(self) -> CpuCounters {
        CpuCounters { entered: (self.entered + 1) as u32, activated: self.activated }
    }

    /// The counters after one more core has begun to run a guest.
    pub open spec fn after_activate(self) -> CpuCounters {
        CpuCounters { entered: self.entered, activated: (self.activated + 1) as u32 }
    }

    /// The counters after one core has stopped running a guest.
    pub open spec fn after_deactivate(self) -> CpuCounters {
        CpuCounters { entered: self.entered, activated: (self.activated - 1) as u32 }
    }

    /// The counters after `PerCpu::new` was called for core `cpu_id` with
    /// the per-core area at `base`: one more core has entered, unless the
    /// call was refused.
    pub open spec fn after_new(self, base: u64, cpu_id: u64) -> CpuCounters {
        if slot_vaddr(base, cpu_id).is_some() && self.entered < u32::MAX {
            self.after_enter()
        } else {
            self
        }
    }

    /// Counters of a system that no core has entered.
    pub fn new() -> (counters: Self)
        ensures
            counters == (CpuCounters { entered: 0, activated: 0 }),
            counters.wf(),
    {
        CpuCounters { entered: 0, activated: 0 }
    }

    pub fn entered_cpus(&self) -> (n: u32)
        ensures
            n == self.entered,
    {
        self.entered
    }

    pub fn activated_cpus(&self) -> (n: u32)
        ensures
            n == self.activated,
    {
        self.activated
    }
}

/// Where a core stands in its life under the hypervisor.
#[derive(Debug, Clone, Copy, PartialEq, Eq, Structural)]
pub enum CpuPhase {
    /// The core has claimed its slot and runs no guest yet.
    Entered,
    /// The core runs a guest.
    Activated,
    /// The core has stopped its guest on request and waits to go on.
    Suspended,
    /// The core has left the bounds of its cell and is parked.
    Failed,
    /// The core has handed control back to the host.
    Deactivated,
}

/// One step of a core's entry into its guest.
#[derive(Debug, Clone, Copy, PartialEq, Eq, Structural)]
pub enum ActivationStep {
    /// Write `VTCR_EL2`.
    WriteVtcr(u64),
    /// Write `HCR_EL2`.
    WriteHcr(u64),
    /// Bring up the core's interrupt-controller context.
    IrqchipInit,
    /// Restore the guest's registers from `regs` and return into the guest.
    EnterGuest { regs: u64 },
}

/// The steps by which a core enters its guest, in their order: the stage-2
/// translation control word is written, the guest-mode bits are set in
/// `HCR_EL2`, whose present value is `hcr_current`, and every other bit of
/// it is kept, the interrupt controller of the core is brought up, and at
/// last the guest is resumed from its saved registers.
pub open spec fn activation_sequence(hcr_current: u64, guest_regs: u64) -> Seq<ActivationStep> {
    seq![
        ActivationStep::WriteVtcr(vtcr_stage2_flags()),
        ActivationStep::WriteHcr(hcr_current | hcr_guest_mode_bits()),
        ActivationStep::IrqchipInit,
        ActivationStep::EnterGuest { regs: guest_regs },
    ]
}

/// One step of a core's return to the host.
#[derive(Debug, Clone, Copy, PartialEq, Eq, Structural)]
pub enum ShutdownStep {
    /// Shut down the core's interrupt-controller context.
    IrqchipShutdown,
    /// Write `HCR_EL2`.
    WriteHcr(u64),
    /// Write `VTCR_EL2`.
    WriteVtcr(u64),
    /// Wait until the register writes have taken effect.
    InstructionBarrier,
    /// Invalidate every stage-2 translation of the current VMID.
    InvalidateStage2Tlb,
    /// Write `VTTBR_EL2`.
    WriteVttbr(u64),
    /// Write `VBAR_EL2`.
    WriteVbar(u64),
    /// Leave EL2 for the host context saved at `regs`, with the host's view
    /// of memory `page_offset` below the hypervisor's.
    ReturnToHost { regs: u64, page_offset: u64 },
}

/// The steps by which a core returns to the host, in the order in which
/// they must be taken: the guest's controls are cleared and the writes
/// committed before the translations are invalidated; the VMID is cleared
/// only after the invalidation that it scopes; the host's vector table is
/// back before the core leaves EL2.
pub open spec fn shutdown_sequence(guest_regs: u64, host_vectors: u64) -> Seq<ShutdownStep> {
    seq![
        ShutdownStep::IrqchipShutdown,
        ShutdownStep::WriteHcr(HCR_HOST_VALUE),
        ShutdownStep::WriteVtcr(VTCR_HOST_VALUE),
        ShutdownStep::InstructionBarrier,
        ShutdownStep::InvalidateStage2Tlb,
        ShutdownStep::WriteVttbr(0),
        ShutdownStep::WriteVbar(host_vectors),
        ShutdownStep::ReturnToHost { regs: guest_regs, page_offset: HOST_PAGE_OFFSET },
    ]
}

/// The address of the slot of a core in the per-core area that begins at
/// `base`, if the whole slot lies inside the address space.
pub open spec fn slot_vaddr(base: u64, cpu_id: u64) -> Option<u64> {
    if base + cpu_id * PER_CPU_SIZE + PER_CPU_SIZE <= u64::MAX {
        Some((base + cpu_id * PER_CPU_SIZE) as u64)
    } else {
        None
    }
}

/// The address of the slot of a core in the per-core area that begins at
/// `base`, if the whole slot lies inside the address space.
pub fn get_cpu_data(base: u64, cpu_id: u64) -> (vaddr: Option<u64>)
    ensures
        vaddr == slot_vaddr(base, cpu_id),
{
    if cpu_id > (u64::MAX - base) / PER_CPU_SIZE {
        assert(base + cpu_id * PER_CPU_SIZE + PER_CPU_SIZE > u64::MAX);
        return None;
    }
    let offset: u64 = cpu_id * PER_CPU_SIZE;
    let vaddr: u64 = base + offset;
    if u64::MAX - vaddr < PER_CPU_SIZE {
        None
    } else {
        Some(vaddr)
    }
}

/// The address of the slot of the core whose `MPIDR_EL1` reads `mpidr`.
pub fn this_cpu_data(base: u64, mpidr: u64) -> (vaddr: Option<u64>)
    ensures
        vaddr == slot_vaddr(base, mpidr & 0xff_00ff_ffff),
{
    get_cpu_data(base, crate::arch::cpu_id_of_mpidr(mpidr))
}

/// The context of one core.
#[derive(Debug, Clone, Copy, PartialEq, Eq, Structural)]
pub struct PerCpu {
    id: u64,
    self_vaddr: u64,
    wait_for_poweron: bool,
    /// Identifier of the cell that the core serves.
    cell: Option<u32>,
    /// State of the shutdown process: `SHUTDOWN_NONE`, `SHUTDOWN_STARTED`,
    /// or a negative error code where the shutdown failed.
    shutdown_state: i32,
    /// True if the core violated a cell boundary or caused some other
    /// failure in guest mode.
    failed: bool,
    /// Set to true for instructing the core to suspend.
    suspend_cpu: bool,
    /// True if the core is suspended.
    cpu_suspended: bool,
    /// Set to true for a pending flush of the stage-2 translations.
    flush_vcpu_caches: bool,
    phase: CpuPhase,
}

impl PerCpu {
    pub closed spec fn spec_id(&self) -> u64 {
        self.id
    }

    pub closed spec fn spec_self_vaddr(&self) -> u64 {
        self.self_vaddr
    }

    pub closed spec fn spec_wait_for_poweron(&self) -> bool {
        self.wait_for_poweron
    }

    pub closed spec fn spec_cell(&self) -> Option<u32> {
        self.cell
    }

    pub closed spec fn spec_shutdown_state(&self) -> i32 {
        self.shutdown_state
    }

    pub closed spec fn spec_failed(&self) -> bool {
        self.failed
    }

    pub closed spec fn spec_suspend_cpu(&self) -> bool {
        self.suspend_cpu
    }

    pub closed spec fn spec_cpu_suspended(&self) -> bool {
        self.cpu_suspended
    }

    pub closed spec fn spec_flush_vcpu_caches(&self) -> bool {
        self.flush_vcpu_caches
    }

    pub closed spec fn spec_phase(&self) -> CpuPhase {
        self.phase
    }

    /// The slot of the core lies inside the address space, and the flags
    /// fit the phase: a parked core has failed, only a parked or wound-down
    /// core has, and a core is marked suspended exactly while it is.
    pub open spec fn wf(&self) -> bool {
        &&& self.spec_self_vaddr() + PER_CPU_SIZE <= u64::MAX
        &&& self.spec_phase() == CpuPhase::Failed ==> self.spec_failed()
        &&& self.spec_failed() ==> self.spec_phase() == CpuPhase::Failed || self.spec_phase()
            == CpuPhase::Deactivated
        &&& self.spec_cpu_suspended() <==> self.spec_phase() == CpuPhase::Suspended
    }

    /// Whether every field but the phase is as in `other`.
    pub open spec fn same_but_phase(&self, other: PerCpu) -> bool {
        &&& self.spec_id() == other.spec_id()
        &&& self.spec_self_vaddr() == other.spec_self_vaddr()
        &&& self.spec_wait_for_poweron() == other.spec_wait_for_poweron()
        &&& self.spec_cell() == other.spec_cell()
        &&& self.spec_shutdown_state() == other.spec_shutdown_state()
        &&& self.spec_failed() == other.spec_failed()
        &&& self.spec_suspend_cpu() == other.spec_suspend_cpu()
        &&& self.spec_cpu_suspended() == other.spec_cpu_suspended()
        &&& self.spec_flush_vcpu_caches() == other.spec_flush_vcpu_caches()
    }

    /// Whether the core is counted among the cores that run a guest.
    pub open spec fn counted(&self) -> bool {
        self.spec_phase() == CpuPhase::Activated || self.spec_phase() == CpuPhase::Suspended
            || self.spec_phase() == CpuPhase::Failed
    }

    /// The context of a core that has just entered: every field at its
    /// initial value.
    pub open spec fn fresh(&self, cpu_id: u64, vaddr: u64) -> bool {
        &&& self.spec_id() == cpu_id
        &&& self.spec_self_vaddr() == vaddr
        &&& !self.spec_wait_for_poweron()
        &&& self.spec_cell().is_none()
        &&& self.spec_shutdown_state() == SHUTDOWN_NONE
        &&& !self.spec_failed()
        &&& !self.spec_suspend_cpu()
        &&& !self.spec_cpu_suspended()
        &&& !self.spec_flush_vcpu_caches()
        &&& self.spec_phase() == CpuPhase::Entered
    }

    /// Claims the slot of core `cpu_id` in the per-core area that begins at
    /// `base`, counts the core as entered, and gives its context with every
    /// field at its initial value. A core whose slot would not lie inside
    /// the address space is refused, then one that can no longer be
    /// counted; the counters then stay as they were.
    pub fn new(cpu_id: u64, base: u64, counters: &mut CpuCounters) -> (res: Result<PerCpu, HvError>)
        requires
            old(counters).wf(),
        ensures
            final(counters).wf(),
            *final(counters) == old(counters).after_new(base, cpu_id),
            match slot_vaddr(base, cpu_id) {
                None => res == Err::<PerCpu, HvError>(HvError::InvalidCpuId),
                Some(vaddr) => if old(counters).entered == u32::MAX {
                    res == Err::<PerCpu, HvError>(HvError::TooManyCpus)
                } else {
                    res.is_ok() && res.unwrap().fresh(cpu_id, vaddr) && res.unwrap().wf()
                },
            },
            res.is_ok() ==> final(counters).entered == old(counters).entered + 1,
            res.is_err() ==> *final(counters) == *old(counters),
    {
        let vaddr: u64 = match get_cpu_data(base, cpu_id) {
            Some(vaddr) => vaddr,
            None => {
                return Err(HvError::InvalidCpuId);
            },
        };
        if counters.entered == u32::MAX {
            return Err(HvError::TooManyCpus);
        }
        counters.entered = counters.entered + 1;
        Ok(
            PerCpu {
                id: cpu_id,
                self_vaddr: vaddr,
                wait_for_poweron: false,
                cell: None,
                shutdown_state: SHUTDOWN_NONE,
                failed: false,
                suspend_cpu: false,
                cpu_suspended: false,
                flush_vcpu_caches: false,
                phase: CpuPhase::Entered,
            },
        )
    }

    /// Address of the top of the core's stack.
    pub fn stack_top(&self) -> (vaddr: u64)
        requires
            self.wf(),
        ensures
            vaddr == self.spec_self_vaddr() + PER_CPU_SIZE - 8,
    {
        self.self_vaddr + PER_CPU_SIZE - 8
    }

    /// Address of the guest's saved registers, right below the top of the
    /// stack.
    pub fn guest_reg(&self) -> (vaddr: u64)
        requires
            self.wf(),
        ensures
            vaddr == self.spec_self_vaddr() + PER_CPU_SIZE - 8 - GUEST_REGS_SIZE,
    {
        self.self_vaddr + PER_CPU_SIZE - 8 - 32 * 8
    }

    /// How many cores have entered the hypervisor.
    pub fn entered_cpus(counters: &CpuCounters) -> (n: u32)
        ensures
            n == counters.entered,
    {
        counters.entered_cpus()
    }

    /// How many cores run a guest.
    pub fn activated_cpus(counters: &CpuCounters) -> (n: u32)
        ensures
            n == counters.activated,
    {
        counters.activated_cpus()
    }

    /// Whether `activate_vmm` lets the core enter a guest: the core has
    /// entered and done nothing else, it has not failed, and not every
    /// entered core is counted as running a guest already.
    pub open spec fn may_activate(&self, counters: CpuCounters) -> bool {
        self.spec_phase() == CpuPhase::Entered && !self.spec_failed() && counters.activated
            < counters.entered
    }

    /// Takes the core into guest mode. The core is counted as activated and
    /// the steps of its entry are handed back in their order; the last of
    /// them does not return. `hcr_current` is what `HCR_EL2` holds. A core
    /// that may not enter a guest is refused, and neither it nor the
    /// counters change.
    pub fn activate_vmm(&mut self, counters: &mut CpuCounters, hcr_current: u64) -> (res: Result<
        Vec<ActivationStep>,
        HvError,
    >)
        requires
            old(self).wf(),
            old(counters).wf(),
        ensures
            final(self).wf(),
            final(counters).wf(),
            res.is_ok() <==> old(self).may_activate(*old(counters)),
            res.is_ok() ==> final(counters).activated == old(counters).activated + 1,
            res.is_err() ==> final(counters).activated == old(counters).activated,
            final(counters).entered == old(counters).entered,
            old(self).may_activate(*old(counters)) ==> {
                &&& res.is_ok()
                &&& res.unwrap()@ == activation_sequence(
                    hcr_current,
                    (old(self).spec_self_vaddr() + PER_CPU_SIZE - 8 - GUEST_REGS_SIZE) as u64,
                )
                &&& *final(counters) == old(counters).after_activate()
                &&& final(counters).activated == old(counters).activated + 1
                &&& final(self).spec_phase() == CpuPhase::Activated
                &&& final(self).same_but_phase(*old(self))
            },
            !old(self).may_activate(*old(counters)) ==> {
                &&& res.is_err()
                &&& res.unwrap_err() == HvError::InvalidState
                &&& *final(self) == *old(self)
                &&& *final(counters) == *old(counters)
            },
    {
        if self.failed || self.phase != CpuPhase::Entered || counters.activated
            >= counters.entered {
            return Err(HvError::InvalidState);
        }
        counters.activated = counters.activated + 1;
        self.phase = CpuPhase::Activated;
        let mut steps: Vec<ActivationStep> = Vec::new();
        steps.push(ActivationStep::WriteVtcr(set_vtcr_flags()));
        steps.push(ActivationStep::WriteHcr(hcr_guest_mode(hcr_current)));
        steps.push(ActivationStep::IrqchipInit);
        steps.push(ActivationStep::EnterGuest { regs: self.guest_reg() });
        assert(steps@ =~= activation_sequence(
            hcr_current,
            (old(self).spec_self_vaddr() + PER_CPU_SIZE - 8 - GUEST_REGS_SIZE) as u64,
        ));
        Ok(steps)
    }

    /// Whether `deactivate_vmm` lets the core return to the host: the core
    /// is counted among those that run a guest, and that count is not zero.
    pub open spec fn may_deactivate(&self, counters: CpuCounters) -> bool {
        self.counted() && counters.activated > 0
    }

    /// The steps by which this core returns to the host, in the order in
    /// which they must be taken.
    pub fn arch_shutdown_self(&self, host_vectors: u64) -> (steps: Vec<ShutdownStep>)
        requires
            self.wf(),
        ensures
            steps@ == shutdown_sequence(
                (self.spec_self_vaddr() + PER_CPU_SIZE - 8 - GUEST_REGS_SIZE) as u64,
                host_vectors,
            ),
    {
        let mut steps: Vec<ShutdownStep> = Vec::new();
        steps.push(ShutdownStep::IrqchipShutdown);
        steps.push(ShutdownStep::WriteHcr(HCR_HOST_VALUE));
        steps.push(ShutdownStep::WriteVtcr(VTCR_HOST_VALUE));
        steps.push(ShutdownStep::InstructionBarrier);
        steps.push(ShutdownStep::InvalidateStage2Tlb);
        steps.push(ShutdownStep::WriteVttbr(0));
        steps.push(ShutdownStep::WriteVbar(host_vectors));
        steps.push(
            ShutdownStep::ReturnToHost { regs: self.guest_reg(), page_offset: HOST_PAGE_OFFSET },
        );
        assert(steps@ =~= shutdown_sequence(
            (self.spec_self_vaddr() + PER_CPU_SIZE - 8 - GUEST_REGS_SIZE) as u64,
            host_vectors,
        ));
        steps
    }

    /// Takes the core out of guest mode. The core is no longer counted as
    /// activated, its pending suspend and flush requests are dropped (the
    /// return to the host invalidates every translation), and the steps of
    /// the return are handed back in their order. `ret_code` is what the
    /// host is told of the outcome; the steps do not depend on it. A core
    /// that is not counted as activated is refused, and neither it nor the
    /// counters change.
    pub fn deactivate_vmm(
        &mut self,
        counters: &mut CpuCounters,
        ret_code: usize,
        host_vectors: u64,
    ) -> (res: Result<Vec<ShutdownStep>, HvError>)
        requires
            old(self).wf(),
            old(counters).wf(),
        ensures
            final(self).wf(),
            final(counters).wf(),
            res.is_ok() <==> old(self).may_deactivate(*old(counters)),
            res.is_ok() ==> final(counters).activated == old(counters).activated - 1,
            res.is_err() ==> final(counters).activated == old(counters).activated,
            final(counters).entered == old(counters).entered,
            old(self).may_deactivate(*old(counters)) ==> {
                &&& res.is_ok()
                &&& res.unwrap()@ == shutdown_sequence(
                    (old(self).spec_self_vaddr() + PER_CPU_SIZE - 8 - GUEST_REGS_SIZE) as u64,
                    host_vectors,
                )
                &&& *final(counters) == old(counters).after_deactivate()
                &&& final(counters).activated == old(counters).activated - 1
                &&& final(self).spec_phase() == CpuPhase::Deactivated
                &&& !final(self).spec_suspend_cpu()
                &&& !final(self).spec_cpu_suspended()
                &&& !final(self).spec_flush_vcpu_caches()
                &&& final(self).spec_id() == old(self).spec_id()
                &&& final(self).spec_self_vaddr() == old(self).spec_self_vaddr()
                &&& final(self).spec_wait_for_poweron() == old(self).spec_wait_for_poweron()
                &&& final(self).spec_cell() == old(self).spec_cell()
                &&& final(self).spec_shutdown_state() == old(self).spec_shutdown_state()
                &&& final(self).spec_failed() == old(self).spec_failed()
            },
            !old(self).may_deactivate(*old(counters)) ==> {
                &&& res.is_err()
                &&& res.unwrap_err() == HvError::InvalidState
                &&& *final(self) == *old(self)
                &&& *final(counters) == *old(counters)
            },
    {
        let counted = self.phase == CpuPhase::Activated || self.phase == CpuPhase::Suspended
            || self.phase == CpuPhase::Failed;
        if !counted || counters.activated == 0 {
            return Err(HvError::InvalidState);
        }
        counters.activated = counters.activated - 1;
        let steps = self.arch_shutdown_self(host_vectors);
        self.phase = CpuPhase::Deactivated;
        self.suspend_cpu = false;
        self.cpu_suspended = false;
        self.flush_vcpu_caches = false;
        Ok(steps)
    }

    /// Asks the core to suspend, or takes the request back.
    pub fn set_suspend_request(&mut self, suspend: bool)
        ensures
            final(self).spec_suspend_cpu() == suspend,
            final(self).same_but_request(*old(self)),
            old(self).wf() ==> final(self).wf(),
    {
        self.suspend_cpu = suspend;
    }

    /// The phase that a core comes to when it looks at its suspend request
    /// at a point where its guest can be stopped: a core that runs a guest
    /// and is asked to suspend does so, a suspended core that is no longer
    /// asked goes on, and every other core stays where it is.
    pub open spec fn phase_after_poll(&self) -> CpuPhase {
        if self.spec_phase() == CpuPhase::Activated && self.spec_suspend_cpu() {
            CpuPhase::Suspended
        } else if self.spec_phase() == CpuPhase::Suspended && !self.spec_suspend_cpu() {
            CpuPhase::Activated
        } else {
            self.spec_phase()
        }
    }

    /// Looks at the suspend request, as the core itself does at each point
    /// where its guest can be stopped, and answers it. Returns whether the
    /// core is suspended now.
    pub fn poll_suspend(&mut self) -> (suspended: bool)
        requires
            old(self).wf(),
        ensures
            final(self).wf(),
            final(self).spec_phase() == old(self).phase_after_poll(),
            suspended == (final(self).spec_phase() == CpuPhase::Suspended),
            final(self).spec_cpu_suspended() == suspended,
            final(self).spec_suspend_cpu() == old(self).spec_suspend_cpu(),
            final(self).spec_id() == old(self).spec_id(),
            final(self).spec_self_vaddr() == old(self).spec_self_vaddr(),
            final(self).spec_wait_for_poweron() == old(self).spec_wait_for_poweron(),
            final(self).spec_cell() == old(self).spec_cell(),
            final(self).spec_shutdown_state() == old(self).spec_shutdown_state(),
            final(self).spec_failed() == old(self).spec_failed(),
            final(self).spec_flush_vcpu_caches() == old(self).spec_flush_vcpu_caches(),
    {
        if self.phase == CpuPhase::Activated && self.suspend_cpu {
            self.phase = CpuPhase::Suspended;
            self.cpu_suspended = true;
        } else if self.phase == CpuPhase::Suspended && !self.suspend_cpu {
            self.phase = CpuPhase::Activated;
            self.cpu_suspended = false;
        }
        self.cpu_suspended
    }

    /// Parks the core after it has left the bounds of its cell. Only a core
    /// that runs a guest, suspended or not, can fail so; any other core is
    /// refused and stays as it was. A parked core never runs a guest again.
    pub fn mark_failed(&mut self) -> (res: Result<(), HvError>)
        requires
            old(self).wf(),
        ensures
            final(self).wf(),
            res.is_ok() <==> old(self).spec_phase() == CpuPhase::Activated
                || old(self).spec_phase() == CpuPhase::Suspended,
            res.is_ok() ==> {
                &&& final(self).spec_phase() == CpuPhase::Failed
                &&& final(self).spec_failed()
                &&& !final(self).spec_cpu_suspended()
                &&& final(self).spec_suspend_cpu() == old(self).spec_suspend_cpu()
                &&& final(self).spec_id() == old(self).spec_id()
                &&& final(self).spec_self_vaddr() == old(self).spec_self_vaddr()
                &&& final(self).spec_wait_for_poweron() == old(self).spec_wait_for_poweron()
                &&& final(self).spec_cell() == old(self).spec_cell()
                &&& final(self).spec_shutdown_state() == old(self).spec_shutdown_state()
                &&& final(self).spec_flush_vcpu_caches() == old(self).spec_flush_vcpu_caches()
            },
            res.is_err() ==> res == Err::<(), HvError>(HvError::InvalidState) && *final(self)
                == *old(self),
    {
        if self.phase == CpuPhase::Activated || self.phase == CpuPhase::Suspended {
            self.phase = CpuPhase::Failed;
            self.failed = true;
            self.cpu_suspended = false;
            Ok(())
        } else {
            Err(HvError::InvalidState)
        }
    }

    /// Assigns the core to a cell, or to none.
    pub fn set_cell(&mut self, cell: Option<u32>)
        ensures
            final(self).spec_cell() == cell,
            final(self).same_but_cell(*old(self)),
            old(self).wf() ==> final(self).wf(),
    {
        self.cell = cell;
    }

    /// Notes that the stage-2 translations of the core have to be flushed,
    /// or that they have been.
    pub fn set_flush_vcpu_caches(&mut self, pending: bool)
        ensures
            final(self).spec_flush_vcpu_caches() == pending,
            final(self).spec_phase() == old(self).spec_phase(),
            final(self).spec_id() == old(self).spec_id(),
            final(self).spec_self_vaddr() == old(self).spec_self_vaddr(),
            final(self).spec_wait_for_poweron() == old(self).spec_wait_for_poweron(),
            final(self).spec_cell() == old(self).spec_cell(),
            final(self).spec_shutdown_state() == old(self).spec_shutdown_state(),
            final(self).spec_failed() == old(self).spec_failed(),
            final(self).spec_suspend_cpu() == old(self).spec_suspend_cpu(),
            final(self).spec_cpu_suspended() == old(self).spec_cpu_suspended(),
            old(self).wf() ==> final(self).wf(),
    {
        self.flush_vcpu_caches = pending;
    }

    /// Whether every field but the suspend request is as in `other`.
    pub open spec fn same_but_request(&self, other: PerCpu) -> bool {
        &&& self.spec_id() == other.spec_id()
        &&& self.spec_self_vaddr() == other.spec_self_vaddr()
        &&& self.spec_wait_for_poweron() == other.spec_wait_for_poweron()
        &&& self.spec_cell() == other.spec_cell()
        &&& self.spec_shutdown_state() == other.spec_shutdown_state()
        &&& self.spec_failed() == other.spec_failed()
        &&& self.spec_cpu_suspended() == other.spec_cpu_suspended()
        &&& self.spec_flush_vcpu_caches() == other.spec_flush_vcpu_caches()
        &&& self.spec_phase() == other.spec_phase()
    }

    /// Whether every field but the cell is as in `other`.
    pub open spec fn same_but_cell(&self, other: PerCpu) -> bool {
        &&& self.spec_id() == other.spec_id()
        &&& self.spec_self_vaddr() == other.spec_self_vaddr()
        &&& self.spec_wait_for_poweron() == other.spec_wait_for_poweron()
        &&& self.spec_shutdown_state() == other.spec_shutdown_state()
        &&& self.spec_failed() == other.spec_failed()
        &&& self.spec_suspend_cpu() == other.spec_suspend_cpu()
        &&& self.spec_cpu_suspended() == other.spec_cpu_suspended()
        &&& self.spec_flush_vcpu_caches() == other.spec_flush_vcpu_caches()
        &&& self.spec_phase() == other.spec_phase()
    }

    /// Whether the context is one that the functions of a core take.
    pub fn is_wf(&self) -> (ok: bool)
        ensures
            ok == self.wf(),
    {
        let parked = self.phase == CpuPhase::Failed;
        let wound_down = self.phase == CpuPhase::Deactivated;
        let suspended = self.phase == CpuPhase::Suspended;
        self.self_vaddr <= u64::MAX - PER_CPU_SIZE && (!parked || self.failed) && (!self.failed
            || parked || wound_down) && self.cpu_suspended == suspended
    }

    pub fn id(&self) -> (id: u64)
        ensures
            id == self.spec_id(),
    {
        self.id
    }

    pub fn self_vaddr(&self) -> (vaddr: u64)
        ensures
            vaddr == self.spec_self_vaddr(),
    {
        self.self_vaddr
    }

    pub fn wait_for_poweron(&self) -> (waiting: bool)
        ensures
            waiting == self.spec_wait_for_poweron(),
    {
        self.wait_for_poweron
    }

    pub fn cell(&self) -> (cell: Option<u32>)
        ensures
            cell == self.spec_cell(),
    {
        self.cell
    }

    pub fn shutdown_state(&self) -> (state: i32)
        ensures
            state == self.spec_shutdown_state(),
    {
        self.shutdown_state
    }

    pub fn failed(&self) -> (failed: bool)
        ensures
            failed == self.spec_failed(),
    {
        self.failed
    }

    pub fn suspend_cpu(&self) -> (asked: bool)
        ensures
            asked == self.spec_suspend_cpu(),
    {
        self.suspend_cpu
    }

    pub fn cpu_suspended(&self) -> (suspended: bool)
        ensures
            suspended == self.spec_cpu_suspended(),
    {
        self.cpu_suspended
    }

    pub fn flush_vcpu_caches(&self) -> (pending: bool)
        ensures
            pending == self.spec_flush_vcpu_caches(),
    {
        self.flush_vcpu_caches
    }

    pub fn phase(&self) -> (phase: CpuPhase)
        ensures
            phase == self.spec_phase(),
    {
        self.phase
    }
}

/// The counters after `PerCpu::new` was called once for each of the cores
/// `ids`, in their order.
pub open spec fn enter_each(counters: CpuCounters, base: u64, ids: Seq<u64>) -> CpuCounters
    decreases ids.len(),
{
    if ids.len() == 0 {
        counters
    } else {
        enter_each(counters, base, ids.drop_last()).after_new(base, ids.last())
    }
}

/// After each of a number of cores with a slot in the per-core area has
/// called `PerCpu::new` once, the counter of entered cores has grown by
/// that number, and the counter of activated cores is as it was.
pub proof fn lemma_entered_counts_cores(counters: CpuCounters, base: u64, ids: Seq<u64>)
    requires
        forall|i: int| 0 <= i < ids.len() ==> slot_vaddr(base, #[trigger] ids[i]).is_some(),
        counters.entered + ids.len() <= u32::MAX,
    ensures
        enter_each(counters, base, ids).entered == counters.entered + ids.len(),
        enter_each(counters, base, ids).activated == counters.activated,
    decreases ids.len(),
{
    if ids.len() > 0 {
        let front = ids.drop_last();
        assert forall|i: int| 0 <= i < front.len() implies slot_vaddr(
            base,
            #[trigger] front[i],
        ).is_some() by {
            assert(front[i] == ids[i]);
        }
        lemma_entered_counts_cores(counters, base, front);
        assert(slot_vaddr(base, ids[ids.len() - 1]).is_some());
    }
}

/// The counters do not depend on the order in which the cores enter.
pub proof fn lemma_entered_ignores_order(
    counters: CpuCounters,
    base: u64,
    ids: Seq<u64>,
    other: Seq<u64>,
)
    requires
        forall|i: int| 0 <= i < ids.len() ==> slot_vaddr(base, #[trigger] ids[i]).is_some(),
        counters.entered + ids.len() <= u32::MAX,
        ids.to_multiset() == other.to_multiset(),
    ensures
        enter_each(counters, base, ids) == enter_each(counters, base, other),
{
    ids.to_multiset_ensures();
    other.to_multiset_ensures();
    assert forall|i: int| 0 <= i < other.len() implies slot_vaddr(
        base,
        #[trigger] other[i],
    ).is_some() by {
        assert(other.contains(other[i]));
        assert(other.to_multiset().count(other[i]) > 0);
        assert(ids.to_multiset().count(other[i]) > 0);
        assert(ids.contains(other[i]));
        let j = choose|j: int| 0 <= j < ids.len() && ids[j] == other[i];
        assert(slot_vaddr(base, ids[j]).is_some());
    }
    lemma_entered_counts_cores(counters, base, ids);
    lemma_entered_counts_cores(counters, base, other);
}

/// A core that enters a guest and leaves it again puts the counters back to
/// what they were; in between exactly one more core is counted.
pub proof fn lemma_activate_deactivate_restores(counters: CpuCounters)
    requires
        counters.wf(),
        counters.activated < counters.entered,
    ensures
        counters.after_activate().activated == counters.activated + 1,
        counters.after_activate().wf(),
        counters.after_activate().after_deactivate() == counters,
{
}

/// Two cores with different identifiers have different slots in the
/// per-core area, and the slots do not reach into each other.
pub proof fn lemma_slots_distinct(base: u64, a: u64, b: u64)
    requires
        a != b,
        slot_vaddr(base, a).is_some(),
        slot_vaddr(base, b).is_some(),
    ensures
        slot_vaddr(base, a).unwrap() != slot_vaddr(base, b).unwrap(),
        slot_vaddr(base, a).unwrap() + PER_CPU_SIZE <= slot_vaddr(base, b).unwrap() || slot_vaddr(
            base,
            b,
        ).unwrap() + PER_CPU_SIZE <= slot_vaddr(base, a).unwrap(),
{
}

/// In the steps of a return to the host, the guest's controls are cleared
/// before the barrier, the barrier comes before the invalidation, the VMID
/// is cleared after it, and the host's vector table is restored before the
/// last step, which leaves EL2.
pub proof fn lemma_shutdown_order(guest_regs: u64, host_vectors: u64)
    ensures
        shutdown_sequence(guest_regs, host_vectors).len() == 8,
        shutdown_sequence(guest_regs, host_vectors)[0] == ShutdownStep::IrqchipShutdown,
        shutdown_sequence(guest_regs, host_vectors)[1] == ShutdownStep::WriteHcr(HCR_HOST_VALUE),
        shutdown_sequence(guest_regs, host_vectors)[2] == ShutdownStep::WriteVtcr(
            VTCR_HOST_VALUE,
        ),
        shutdown_sequence(guest_regs, host_vectors)[3] == ShutdownStep::InstructionBarrier,
        shutdown_sequence(guest_regs, host_vectors)[4] == ShutdownStep::InvalidateStage2Tlb,
        shutdown_sequence(guest_regs, host_vectors)[5] == ShutdownStep::WriteVttbr(0),
        shutdown_sequence(guest_regs, host_vectors)[6] == ShutdownStep::WriteVbar(host_vectors),
        shutdown_sequence(guest_regs, host_vectors)[7] == (ShutdownStep::ReturnToHost {
            regs: guest_regs,
            page_offset: HOST_PAGE_OFFSET,
        }),
{
}

/// How many of the cores are counted among those that run a guest.
pub open spec fn counted_cores(cpus: Seq<PerCpu>) -> int
    decreases cpus.len(),
{
    if cpus.len() == 0 {
        0
    } else {
        counted_cores(cpus.drop_last()) + if cpus.last().counted() {
            1int
        } else {
            0int
        }
    }
}

/// The counters say what is true of the cores: each core has entered, and
/// the counter of activated cores is the number of cores that are counted
/// as running a guest.
pub open spec fn consistent(cpus: Seq<PerCpu>, counters: CpuCounters) -> bool {
    counters.entered == cpus.len() && counters.activated == counted_cores(cpus)
}

/// No more cores are counted than there are.
pub proof fn lemma_counted_bounds(cpus: Seq<PerCpu>)
    ensures
        0 <= counted_cores(cpus) <= cpus.len(),
    decreases cpus.len(),
{
    if cpus.len() > 0 {
        lemma_counted_bounds(cpus.drop_last());
    }
}

/// Putting another context in the place of a core changes the number of
/// counted cores by what the two contexts differ in.
pub proof fn lemma_counted_update(cpus: Seq<PerCpu>, i: int, cpu: PerCpu)
    requires
        0 <= i < cpus.len(),
    ensures
        counted_cores(cpus.update(i, cpu)) == counted_cores(cpus) - (if cpus[i].counted() {
            1int
        } else {
            0int
        }) + (if cpu.counted() {
            1int
        } else {
            0int
        }),
    decreases cpus.len(),
{
    let after = cpus.update(i, cpu);
    if i == cpus.len() - 1 {
        assert(after.drop_last() == cpus.drop_last());
    } else {
        assert(after.drop_last() == cpus.drop_last().update(i, cpu));
        lemma_counted_update(cpus.drop_last(), i, cpu);
    }
}

/// Where the counters say what is true of the cores, the counters stand in
/// no core's way: a core that has entered and not failed may enter a guest,
/// and a core that is counted as running a guest may leave it. The counter
/// of activated cores is never asked to go below zero.
pub proof fn lemma_counters_never_refuse(cpus: Seq<PerCpu>, counters: CpuCounters, i: int)
    requires
        consistent(cpus, counters),
        0 <= i < cpus.len(),
    ensures
        counters.wf(),
        cpus[i].spec_phase() == CpuPhase::Entered && !cpus[i].spec_failed()
            ==> cpus[i].may_activate(counters),
        cpus[i].counted() ==> cpus[i].may_deactivate(counters),
    decreases cpus.len(),
{
    lemma_counted_bounds(cpus);
    if i == cpus.len() - 1 {
        lemma_counted_bounds(cpus.drop_last());
    } else {
        let front = cpus.drop_last();
        let fewer = CpuCounters {
            entered: front.len() as u32,
            activated: counted_cores(front) as u32,
        };
        lemma_counted_bounds(front);
        lemma_counters_never_refuse(front, fewer, i);
        assert(front[i] == cpus[i]);
    }
}

/// The counters stay true of the cores when one of them enters a guest or
/// leaves it, and the counters change as `activate_vmm` and
/// `deactivate_vmm` change them.
pub proof fn lemma_transitions_keep_consistent(
    cpus: Seq<PerCpu>,
    counters: CpuCounters,
    i: int,
    cpu: PerCpu,
)
    requires
        consistent(cpus, counters),
        0 <= i < cpus.len(),
    ensures
        !cpus[i].counted() && cpu.counted() ==> consistent(
            cpus.update(i, cpu),
            counters.after_activate(),
        ),
        cpus[i].counted() && !cpu.counted() ==> consistent(
            cpus.update(i, cpu),
            counters.after_deactivate(),
        ),
        cpus[i].counted() == cpu.counted() ==> consistent(cpus.update(i, cpu), counters),
{
    lemma_counted_bounds(cpus);
    lemma_counted_bounds(cpus.update(i, cpu));
    lemma_counted_update(cpus, i, cpu);
}

/// A call that changed the counter of activated cores.
#[derive(Debug, Clone, Copy, PartialEq, Eq, Structural)]
pub enum CounterMove {
    /// An `activate_vmm` that succeeded.
    Activation,
    /// A `deactivate_vmm` that succeeded.
    Deactivation,
}

/// The counters after the calls `moves`, in their order.
pub open spec fn after_moves(counters: CpuCounters, moves: Seq<CounterMove>) -> CpuCounters
    decreases moves.len(),
{
    if moves.len() == 0 {
        counters
    } else {
        match moves.last() {
            CounterMove::Activation => after_moves(counters, moves.drop_last()).after_activate(),
            CounterMove::Deactivation => after_moves(
                counters,
                moves.drop_last(),
            ).after_deactivate(),
        }
    }
}

/// Whether each of the calls could succeed where it came: an activation
/// while fewer cores were activated than had entered, a deactivation while
/// a core was activated.
pub open spec fn moves_allowed(counters: CpuCounters, moves: Seq<CounterMove>) -> bool
    decreases moves.len(),
{
    if moves.len() == 0 {
        true
    } else {
        let before = after_moves(counters, moves.drop_last());
        moves_allowed(counters, moves.drop_last()) && match moves.last() {
            CounterMove::Activation => before.activated < before.entered,
            CounterMove::Deactivation => before.activated > 0,
        }
    }
}

/// How many of the calls are of the given kind.
pub open spec fn count_moves(moves: Seq<CounterMove>, kind: CounterMove) -> int
    decreases moves.len(),
{
    if moves.len() == 0 {
        0
    } else {
        count_moves(moves.drop_last(), kind) + if moves.last() == kind {
            1int
        } else {
            0int
        }
    }
}

/// The counter of activated cores goes up by exactly one with each
/// activation that succeeds and down by exactly one with each deactivation
/// that succeeds; it never goes below zero nor above the number of cores
/// that have entered, which stays as it was.
pub proof fn lemma_activated_follows_calls(counters: CpuCounters, moves: Seq<CounterMove>)
    requires
        counters.wf(),
        moves_allowed(counters, moves),
    ensures
        after_moves(counters, moves).activated == counters.activated + count_moves(
            moves,
            CounterMove::Activation,
        ) - count_moves(moves, CounterMove::Deactivation),
        0 <= after_moves(counters, moves).activated <= counters.entered,
        after_moves(counters, moves).entered == counters.entered,
        after_moves(counters, moves).wf(),
    decreases moves.len(),
{
    if moves.len() > 0 {
        lemma_activated_follows_calls(counters, moves.drop_last());
    }
}

} // verus!

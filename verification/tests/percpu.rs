use hvcell::error::HvError;
use hvcell::percpu::{
    get_cpu_data, this_cpu_data, ActivationStep, CpuCounters, CpuPhase, GeneralRegisters, PerCpu,
    ShutdownStep, GUEST_REGS_SIZE, HOST_PAGE_OFFSET, JAILHOUSE_NUM_CPU_STATS, PER_CPU_SIZE,
    SHUTDOWN_NONE, SHUTDOWN_STARTED,
};

const BASE: u64 = 0xffff_ff00_0040_0000;

#[test]
fn constants() {
    assert_eq!(PER_CPU_SIZE, 512 * 1024);
    assert_eq!(GUEST_REGS_SIZE, 32 * 8);
    assert_eq!(HOST_PAGE_OFFSET, 0xffff_4060_0000);
    assert_eq!(SHUTDOWN_NONE, 0);
    assert_eq!(SHUTDOWN_STARTED, 1);
    assert_eq!(JAILHOUSE_NUM_CPU_STATS, 10);
    let regs = GeneralRegisters::default();
    assert_eq!(regs.exit_reason, 0);
    assert_eq!(regs.usr, [0u64; 31]);
}

#[test]
fn slot_addresses() {
    assert_eq!(get_cpu_data(BASE, 0), Some(BASE));
    assert_eq!(get_cpu_data(BASE, 1), Some(BASE + 0x8_0000));
    assert_eq!(get_cpu_data(BASE, 5), Some(BASE + 5 * 0x8_0000));
    assert_eq!(get_cpu_data(0, 0x100), Some(0x800_0000));
}

#[test]
fn slot_outside_the_address_space() {
    // The last slot that fits below the top, and the first that does not.
    let last = (u64::MAX - BASE) / PER_CPU_SIZE - 1;
    assert!(get_cpu_data(BASE, last).is_some());
    assert_eq!(get_cpu_data(BASE, last + 1), None);
    assert_eq!(get_cpu_data(BASE, u64::MAX), None);
    assert_eq!(get_cpu_data(u64::MAX, 0), None);
    assert_eq!(get_cpu_data(u64::MAX - PER_CPU_SIZE, 0), Some(u64::MAX - PER_CPU_SIZE));
    assert_eq!(get_cpu_data(u64::MAX - PER_CPU_SIZE + 1, 0), None);
}

#[test]
fn this_cpu_goes_by_the_affinity_fields() {
    assert_eq!(this_cpu_data(BASE, 0x8000_0002), Some(BASE + 2 * 0x8_0000));
    assert_eq!(this_cpu_data(BASE, 0), Some(BASE));
}

#[test]
fn new_resets_every_field() {
    let mut counters = CpuCounters::new();
    let cpu = PerCpu::new(3, BASE, &mut counters).unwrap();
    assert_eq!(cpu.id(), 3);
    assert_eq!(cpu.self_vaddr(), BASE + 3 * PER_CPU_SIZE);
    assert!(!cpu.wait_for_poweron());
    assert_eq!(cpu.cell(), None);
    assert_eq!(cpu.shutdown_state(), SHUTDOWN_NONE);
    assert!(!cpu.failed());
    assert!(!cpu.suspend_cpu());
    assert!(!cpu.cpu_suspended());
    assert!(!cpu.flush_vcpu_caches());
    assert_eq!(cpu.phase(), CpuPhase::Entered);
    assert_eq!(counters.entered_cpus(), 1);
    assert_eq!(counters.activated_cpus(), 0);
}

#[test]
fn stack_and_guest_registers_lie_at_the_top_of_the_slot() {
    let mut counters = CpuCounters::new();
    let cpu = PerCpu::new(1, BASE, &mut counters).unwrap();
    assert_eq!(cpu.stack_top(), BASE + 2 * PER_CPU_SIZE - 8);
    assert_eq!(cpu.guest_reg(), BASE + 2 * PER_CPU_SIZE - 8 - 256);
}

#[test]
fn entered_counts_the_calls_of_new() {
    let mut counters = CpuCounters::new();
    assert_eq!(PerCpu::entered_cpus(&counters), 0);
    for (n, id) in [4u64, 0, 7, 2, 1].iter().enumerate() {
        PerCpu::new(*id, BASE, &mut counters).unwrap();
        assert_eq!(PerCpu::entered_cpus(&counters), n as u32 + 1);
    }
    let mut other = CpuCounters::new();
    for id in [1u64, 2, 0, 7, 4] {
        PerCpu::new(id, BASE, &mut other).unwrap();
    }
    assert_eq!(other, counters);
    assert_eq!(PerCpu::activated_cpus(&counters), 0);
}

#[test]
fn two_cores_have_their_own_contexts() {
    let mut counters = CpuCounters::new();
    let mut a = PerCpu::new(0, BASE, &mut counters).unwrap();
    let b = PerCpu::new(1, BASE, &mut counters).unwrap();
    assert_eq!(PerCpu::entered_cpus(&counters), 2);
    assert_eq!(a.id(), 0);
    assert_eq!(b.id(), 1);
    assert_eq!(a.self_vaddr(), BASE);
    assert_eq!(b.self_vaddr(), BASE + PER_CPU_SIZE);
    assert!(a.self_vaddr() + PER_CPU_SIZE <= b.self_vaddr());
    a.set_cell(Some(1));
    a.set_flush_vcpu_caches(true);
    a.set_suspend_request(true);
    assert_eq!(b.cell(), None);
    assert!(!b.flush_vcpu_caches());
    assert!(!b.suspend_cpu());
}

#[test]
fn new_refuses_a_core_without_a_slot() {
    let mut counters = CpuCounters::new();
    assert_eq!(PerCpu::new(u64::MAX, BASE, &mut counters), Err(HvError::InvalidCpuId));
    assert_eq!(counters, CpuCounters::new());
}

#[test]
fn new_refuses_when_the_counter_is_full() {
    let mut counters = CpuCounters { entered: u32::MAX, activated: 0 };
    assert_eq!(PerCpu::new(0, BASE, &mut counters), Err(HvError::TooManyCpus));
    assert_eq!(counters, CpuCounters { entered: u32::MAX, activated: 0 });
    // A missing slot is reported first.
    assert_eq!(PerCpu::new(u64::MAX, BASE, &mut counters), Err(HvError::InvalidCpuId));
    let mut counters = CpuCounters { entered: u32::MAX - 1, activated: 0 };
    assert!(PerCpu::new(0, BASE, &mut counters).is_ok());
    assert_eq!(counters.entered, u32::MAX);
}

#[test]
fn activation_counts_the_core_and_gives_the_plan() {
    let mut counters = CpuCounters::new();
    let mut cpu = PerCpu::new(2, BASE, &mut counters).unwrap();
    let steps = cpu.activate_vmm(&mut counters, 0x4000_0000_0000_0002).unwrap();
    assert_eq!(
        steps,
        vec![
            ActivationStep::WriteVtcr(0x24_3594),
            ActivationStep::WriteHcr(0x4000_0000_8008_001b),
            ActivationStep::IrqchipInit,
            ActivationStep::EnterGuest { regs: BASE + 3 * PER_CPU_SIZE - 8 - 256 },
        ]
    );
    assert_eq!(PerCpu::activated_cpus(&counters), 1);
    assert_eq!(PerCpu::entered_cpus(&counters), 1);
    assert_eq!(cpu.phase(), CpuPhase::Activated);
    assert_eq!(cpu.id(), 2);
    assert!(!cpu.failed());
}

#[test]
fn activation_twice_is_refused() {
    let mut counters = CpuCounters::new();
    let mut cpu = PerCpu::new(0, BASE, &mut counters).unwrap();
    PerCpu::new(1, BASE, &mut counters).unwrap();
    cpu.activate_vmm(&mut counters, 0).unwrap();
    let before = cpu;
    assert_eq!(cpu.activate_vmm(&mut counters, 0), Err(HvError::InvalidState));
    assert_eq!(cpu, before);
    assert_eq!(counters, CpuCounters { entered: 2, activated: 1 });
}

#[test]
fn activation_needs_an_entered_core_that_is_not_counted_yet() {
    let mut counters = CpuCounters::new();
    let mut cpu = PerCpu::new(0, BASE, &mut counters).unwrap();
    let mut full = CpuCounters { entered: 1, activated: 1 };
    assert_eq!(cpu.activate_vmm(&mut full, 0), Err(HvError::InvalidState));
    assert_eq!(full, CpuCounters { entered: 1, activated: 1 });
    assert_eq!(cpu.phase(), CpuPhase::Entered);
    assert!(cpu.activate_vmm(&mut counters, 0).is_ok());
}

#[test]
fn activate_then_deactivate_restores_the_counter() {
    let mut counters = CpuCounters::new();
    let mut cpu = PerCpu::new(0, BASE, &mut counters).unwrap();
    PerCpu::new(1, BASE, &mut counters).unwrap().activate_vmm(&mut counters, 0).unwrap();
    let before = PerCpu::activated_cpus(&counters);
    cpu.activate_vmm(&mut counters, 0).unwrap();
    assert_eq!(PerCpu::activated_cpus(&counters), before + 1);
    cpu.deactivate_vmm(&mut counters, 0, 0xffff_0000_1234_0800).unwrap();
    assert_eq!(PerCpu::activated_cpus(&counters), before);
    assert!(!cpu.suspend_cpu());
    assert!(!cpu.cpu_suspended());
    assert!(!cpu.flush_vcpu_caches());
    assert_eq!(cpu.phase(), CpuPhase::Deactivated);
    assert_eq!(cpu.id(), 0);
    assert_eq!(cpu.self_vaddr(), BASE);
}

#[test]
fn deactivation_gives_the_steps_in_order() {
    let mut counters = CpuCounters::new();
    let mut cpu = PerCpu::new(1, BASE, &mut counters).unwrap();
    cpu.activate_vmm(&mut counters, 0).unwrap();
    let regs = cpu.guest_reg();
    let steps = cpu.deactivate_vmm(&mut counters, 0, 0xffff_0000_1234_0800).unwrap();
    assert_eq!(
        steps,
        vec![
            ShutdownStep::IrqchipShutdown,
            ShutdownStep::WriteHcr(0x8000_0000),
            ShutdownStep::WriteVtcr(0x8000_0000),
            ShutdownStep::InstructionBarrier,
            ShutdownStep::InvalidateStage2Tlb,
            ShutdownStep::WriteVttbr(0),
            ShutdownStep::WriteVbar(0xffff_0000_1234_0800),
            ShutdownStep::ReturnToHost { regs, page_offset: 0xffff_4060_0000 },
        ]
    );
    assert_eq!(cpu.arch_shutdown_self(0xffff_0000_1234_0800), steps);
}

#[test]
fn deactivation_drops_pending_requests() {
    let mut counters = CpuCounters::new();
    let mut cpu = PerCpu::new(0, BASE, &mut counters).unwrap();
    cpu.activate_vmm(&mut counters, 0).unwrap();
    cpu.set_suspend_request(true);
    cpu.set_flush_vcpu_caches(true);
    assert!(cpu.poll_suspend());
    assert!(cpu.deactivate_vmm(&mut counters, 0, 0).is_ok());
    assert!(!cpu.suspend_cpu());
    assert!(!cpu.cpu_suspended());
    assert!(!cpu.flush_vcpu_caches());
    assert_eq!(counters.activated, 0);
}

#[test]
fn deactivation_of_a_core_that_runs_no_guest_is_refused() {
    let mut counters = CpuCounters::new();
    let mut cpu = PerCpu::new(0, BASE, &mut counters).unwrap();
    let before = cpu;
    assert_eq!(cpu.deactivate_vmm(&mut counters, 0, 0), Err(HvError::InvalidState));
    assert_eq!(cpu, before);
    assert_eq!(counters, CpuCounters { entered: 1, activated: 0 });
    cpu.activate_vmm(&mut counters, 0).unwrap();
    cpu.deactivate_vmm(&mut counters, 0, 0).unwrap();
    assert_eq!(cpu.deactivate_vmm(&mut counters, 0, 0), Err(HvError::InvalidState));
    assert_eq!(counters.activated, 0);
    // The core does not run a guest again either.
    assert_eq!(cpu.activate_vmm(&mut counters, 0), Err(HvError::InvalidState));
}

#[test]
fn activated_counter_never_goes_below_zero() {
    let mut counters = CpuCounters::new();
    let mut cpu = PerCpu::new(0, BASE, &mut counters).unwrap();
    cpu.activate_vmm(&mut counters, 0).unwrap();
    let mut empty = CpuCounters { entered: 1, activated: 0 };
    assert_eq!(cpu.deactivate_vmm(&mut empty, 0, 0), Err(HvError::InvalidState));
    assert_eq!(empty.activated, 0);
    assert_eq!(cpu.phase(), CpuPhase::Activated);
}

#[test]
fn suspend_request_and_answer() {
    let mut counters = CpuCounters::new();
    let mut cpu = PerCpu::new(0, BASE, &mut counters).unwrap();
    // A core that runs no guest has nothing to suspend.
    cpu.set_suspend_request(true);
    assert!(!cpu.poll_suspend());
    assert_eq!(cpu.phase(), CpuPhase::Entered);
    cpu.set_suspend_request(false);
    cpu.activate_vmm(&mut counters, 0).unwrap();
    assert!(!cpu.poll_suspend());
    cpu.set_suspend_request(true);
    assert!(!cpu.cpu_suspended());
    assert!(cpu.poll_suspend());
    assert!(cpu.cpu_suspended());
    assert_eq!(cpu.phase(), CpuPhase::Suspended);
    assert!(cpu.poll_suspend());
    cpu.set_suspend_request(false);
    assert!(cpu.cpu_suspended());
    assert!(!cpu.poll_suspend());
    assert!(!cpu.cpu_suspended());
    assert_eq!(cpu.phase(), CpuPhase::Activated);
    assert_eq!(counters.activated, 1);
}

#[test]
fn failed_core_is_parked_for_good() {
    let mut counters = CpuCounters::new();
    let mut cpu = PerCpu::new(0, BASE, &mut counters).unwrap();
    assert_eq!(cpu.mark_failed(), Err(HvError::InvalidState));
    assert!(!cpu.failed());
    cpu.activate_vmm(&mut counters, 0).unwrap();
    assert_eq!(cpu.mark_failed(), Ok(()));
    assert!(cpu.failed());
    assert_eq!(cpu.phase(), CpuPhase::Failed);
    assert_eq!(cpu.mark_failed(), Err(HvError::InvalidState));
    assert_eq!(cpu.activate_vmm(&mut counters, 0), Err(HvError::InvalidState));
    cpu.set_suspend_request(true);
    assert!(!cpu.poll_suspend());
    assert_eq!(cpu.phase(), CpuPhase::Failed);
    assert_eq!(counters.activated, 1);
    // Winding down is all that is left.
    assert!(cpu.deactivate_vmm(&mut counters, 0, 0).is_ok());
    assert_eq!(counters.activated, 0);
    assert!(cpu.failed());
    assert_eq!(cpu.phase(), CpuPhase::Deactivated);
    assert_eq!(cpu.activate_vmm(&mut counters, 0), Err(HvError::InvalidState));
}

#[test]
fn suspended_core_can_fail() {
    let mut counters = CpuCounters::new();
    let mut cpu = PerCpu::new(0, BASE, &mut counters).unwrap();
    cpu.activate_vmm(&mut counters, 0).unwrap();
    cpu.set_suspend_request(true);
    cpu.poll_suspend();
    assert_eq!(cpu.mark_failed(), Ok(()));
    assert!(!cpu.cpu_suspended());
    assert!(cpu.suspend_cpu());
    assert_eq!(cpu.phase(), CpuPhase::Failed);
}

#[test]
fn setters_change_one_field() {
    let mut counters = CpuCounters::new();
    let mut cpu = PerCpu::new(4, BASE, &mut counters).unwrap();
    cpu.set_cell(Some(2));
    assert_eq!(cpu.cell(), Some(2));
    cpu.set_flush_vcpu_caches(true);
    assert!(cpu.flush_vcpu_caches());
    assert_eq!(cpu.cell(), Some(2));
    cpu.set_flush_vcpu_caches(false);
    cpu.set_cell(None);
    assert_eq!(cpu, PerCpu::new(4, BASE, &mut CpuCounters::new()).unwrap());
}

#[test]
fn contexts_of_the_library_are_well_formed() {
    let mut counters = CpuCounters::new();
    let mut cpu = PerCpu::new(0, BASE, &mut counters).unwrap();
    assert!(cpu.is_wf());
    cpu.activate_vmm(&mut counters, 0).unwrap();
    assert!(cpu.is_wf());
    cpu.set_suspend_request(true);
    cpu.poll_suspend();
    assert!(cpu.is_wf());
    cpu.mark_failed().unwrap();
    assert!(cpu.is_wf());
    cpu.deactivate_vmm(&mut counters, 0, 0).unwrap();
    assert!(cpu.is_wf());
}

#[test]
fn counter_follows_the_calls_that_succeed() {
    let mut counters = CpuCounters::new();
    let mut cpus: Vec<PerCpu> =
        (0..4u64).map(|id| PerCpu::new(id, BASE, &mut counters).unwrap()).collect();
    let mut expected = 0u32;
    for cpu in cpus.iter_mut() {
        assert!(cpu.activate_vmm(&mut counters, 0).is_ok());
        expected += 1;
        assert_eq!(PerCpu::activated_cpus(&counters), expected);
    }
    // Whatever the return code, the counter goes down by one.
    for (cpu, ret_code) in cpus.iter_mut().zip([0usize, 1, usize::MAX, 22]) {
        assert!(cpu.deactivate_vmm(&mut counters, ret_code, 0).is_ok());
        expected -= 1;
        assert_eq!(PerCpu::activated_cpus(&counters), expected);
    }
    assert_eq!(counters, CpuCounters { entered: 4, activated: 0 });
    // A core that runs no guest is refused even while others are counted.
    let mut idle = PerCpu::new(9, BASE, &mut counters).unwrap();
    let mut busy = PerCpu::new(10, BASE, &mut counters).unwrap();
    busy.activate_vmm(&mut counters, 0).unwrap();
    assert_eq!(idle.deactivate_vmm(&mut counters, 0, 0), Err(HvError::InvalidState));
    assert_eq!(PerCpu::activated_cpus(&counters), 1);
}

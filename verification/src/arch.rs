use vstd::prelude::*;
use aarch64_cpu::registers::{HCR_EL2, VTCR_EL2};

verus! {

/// `HCR_EL2` as a core leaves it on shutdown: only the register-width bit
/// stays set, so that the host's EL1 keeps running as AArch64.
pub const HCR_HOST_VALUE: u64 = 0x8000_0000;

/// `VTCR_EL2` as a core leaves it on shutdown: every field cleared but the
/// reserved bit that always reads as one.
pub const VTCR_HOST_VALUE: u64 = 0x8000_0000;

/// The field of a register value that starts at bit `offset` and is as wide
/// as `mask`, a run of low one bits.
pub open spec fn field(value: u64, offset: u64, mask: u64) -> u64 {
    (value >> offset) & mask
}

/// The stage-2 translation control word: 4 KiB granule, 44-bit physical
/// addresses, inner-shareable write-back walks, hardware access flag,
/// starting level selector 2 and an input address size of 2^(64-20) bytes.
pub open spec fn vtcr_stage2_flags() -> u64 {
    0x24_3594
}

/// The bits that put a core into guest mode: EL1 is AArch64, SMC traps to
/// EL2, stage-2 translation is on, and physical IRQs and FIQs are routed to
/// EL2.
pub open spec fn hcr_guest_mode_bits() -> u64 {
    0x8008_0019
}

/// Adds up the `VTCR_EL2` field values of `aarch64_cpu` with the `+` of
/// `tock_registers` and takes the `value` of the sum. The crate places T0SZ
/// at bit 0, SL0 at bit 6, IRGN0 at 8, ORGN0 at 10, SH0 at 12, TG0 at 14, PS
/// at 16 and HA at 21; the contract gives the word these add up to.
#[verifier::external_body]
fn vtcr_field_sum() -> (value: u64)
    ensures
        value == vtcr_stage2_flags(),
{
    (VTCR_EL2::TG0::Granule4KB
        + VTCR_EL2::PS::PA_44B_16TB
        + VTCR_EL2::SH0::Inner
        + VTCR_EL2::HA::Enabled
        + VTCR_EL2::SL0.val(2)
        + VTCR_EL2::ORGN0::NormalWBRAWA
        + VTCR_EL2::IRGN0::NormalWBRAWA
        + VTCR_EL2::T0SZ.val(20))
        .value
}

/// Applies `FieldValue::modify` of `tock_registers` to `current`, with the
/// sum of the `HCR_EL2` fields RW, TSC, VM, IMO and FMO of `aarch64_cpu`, each
/// one bit wide and set. `modify` clears the sum's mask in `current` and ors
/// the sum's value in; mask and value are both the five bits.
#[verifier::external_body]
fn hcr_modify_for_guest(current: u64) -> (value: u64)
    ensures
        value == (current & !hcr_guest_mode_bits()) | hcr_guest_mode_bits(),
{
    (HCR_EL2::RW::EL1IsAarch64
        + HCR_EL2::TSC::EnableTrapEl1SmcToEl2
        + HCR_EL2::VM::SET
        + HCR_EL2::IMO::SET
        + HCR_EL2::FMO::SET)
        .modify(current)
}

/// The value to write to `VTCR_EL2` before a core enters a guest.
pub fn set_vtcr_flags() -> (value: u64)
    ensures
        value == vtcr_stage2_flags(),
        field(value, 0, 0x3f) == 20,
        field(value, 6, 0x3) == 2,
        field(value, 8, 0x3) == 1,
        field(value, 10, 0x3) == 1,
        field(value, 12, 0x3) == 3,
        field(value, 14, 0x3) == 0,
        field(value, 16, 0x7) == 4,
        field(value, 21, 0x1) == 1,
{
    let value: u64 = vtcr_field_sum();
    assert((0x24_3594u64 >> 0u64) & 0x3fu64 == 20) by (bit_vector);
    assert((0x24_3594u64 >> 6u64) & 0x3u64 == 2) by (bit_vector);
    assert((0x24_3594u64 >> 8u64) & 0x3u64 == 1) by (bit_vector);
    assert((0x24_3594u64 >> 10u64) & 0x3u64 == 1) by (bit_vector);
    assert((0x24_3594u64 >> 12u64) & 0x3u64 == 3) by (bit_vector);
    assert((0x24_3594u64 >> 14u64) & 0x3u64 == 0) by (bit_vector);
    assert((0x24_3594u64 >> 16u64) & 0x7u64 == 4) by (bit_vector);
    assert((0x24_3594u64 >> 21u64) & 0x1u64 == 1) by (bit_vector);
    value
}

/// The value to write to `HCR_EL2` when a core enters a guest, given the
/// value the register holds: the guest-mode bits are set and every other bit
/// is kept.
pub fn hcr_guest_mode(current: u64) -> (value: u64)
    ensures
        value == current | hcr_guest_mode_bits(),
        value & hcr_guest_mode_bits() == hcr_guest_mode_bits(),
        value & !hcr_guest_mode_bits() == current & !hcr_guest_mode_bits(),
{
    let value: u64 = hcr_modify_for_guest(current);
    assert(((current & !0x8008_0019u64) | 0x8008_0019u64) == current | 0x8008_0019u64)
        by (bit_vector);
    assert((current | 0x8008_0019u64) & 0x8008_0019u64 == 0x8008_0019u64) by (bit_vector);
    assert((current | 0x8008_0019u64) & !0x8008_0019u64 == current & !0x8008_0019u64)
        by (bit_vector);
    value
}

/// The core identifier held in the affinity fields of an `MPIDR_EL1` value.
pub fn cpu_id_of_mpidr(mpidr: u64) -> (cpu_id: u64)
    ensures
        cpu_id == mpidr & 0xff_00ff_ffff,
        cpu_id <= 0xff_00ff_ffff,
{
    let cpu_id: u64 = mpidr & 0xff_00ff_ffff;
    assert(mpidr & 0xff_00ff_ffff <= 0xff_00ff_ffff) by (bit_vector);
    cpu_id
}

} // verus!

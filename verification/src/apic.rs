//! The local APIC: its registers, the values that configure it, and the
//! order in which they are written.
#![allow(non_camel_case_types)]

use vstd::prelude::*;

verus! {

/// The virtual address at which the registers of the local APIC are mapped.
pub const LAPIC_VIRT_BASE: u64 = 0xFFFF_FF00_0000_0000;

/// The vector of spurious interrupts.
pub const SPURIOUS_VECTOR: u32 = 0xFF;

/// The bit of the spurious interrupt vector register that enables the APIC.
pub const SVR_ENABLE: u32 = 0x100;

/// The divide configuration for a divisor of 16.
pub const DIVIDE_BY_16: u32 = 0b0011;

/// The initial count of the timer, which sets the tick rate.
pub const TIMER_INITIAL_COUNT: u32 = 500_000;

/// The vector of the timer interrupt.
pub const LAPIC_TIMER_VECTOR: u8 = 0x31;

/// The model-specific register that holds the base of the APIC.
pub const APIC_BASE_MSR: u32 = 0x1B;

/// The modes of the timer, which stand in bits 17 and 18 of the timer entry
/// of the local vector table.
#[derive(Clone, Copy, Debug, PartialEq, Eq, Structural)]
pub enum LapicTimer {
    OneShot,
    Periodic,
    TscDeadline,
}

/// The registers, each at its offset from the base.
#[derive(Clone, Copy, Debug, PartialEq, Eq, Structural)]
pub enum LapicRegister {
    LVT_TIMER,
    DIVIDE_CONFIG,
    INITIAL_COUNT,
    CURRENT_COUNT,
    EOI,
    SVR,
    ID,
    VERSION,
}

impl LapicTimer {
    /// The mode as it stands in the timer entry.
    pub open spec fn spec_bits(self) -> u32 {
        match self {
            LapicTimer::OneShot => 0,
            LapicTimer::Periodic => 0x2_0000,
            LapicTimer::TscDeadline => 0x4_0000,
        }
    }

    /// The mode as it stands in the timer entry.
    pub fn bits(self) -> (b: u32)
        ensures
            b == self.spec_bits(),
    {
        match self {
            LapicTimer::OneShot => 0,
            LapicTimer::Periodic => 0x2_0000,
            LapicTimer::TscDeadline => 0x4_0000,
        }
    }
}

impl LapicRegister {
    /// The offset of the register from the base.
    pub open spec fn spec_offset(self) -> u64 {
        match self {
            LapicRegister::LVT_TIMER => 0x320,
            LapicRegister::DIVIDE_CONFIG => 0x3E0,
            LapicRegister::INITIAL_COUNT => 0x380,
            LapicRegister::CURRENT_COUNT => 0x390,
            LapicRegister::EOI => 0xB0,
            LapicRegister::SVR => 0xF0,
            LapicRegister::ID => 0x20,
            LapicRegister::VERSION => 0x30,
        }
    }

    /// The offset of the register from the base.
    pub fn offset(self) -> (o: u64)
        ensures
            o == self.spec_offset(),
    {
        match self {
            LapicRegister::LVT_TIMER => 0x320,
            LapicRegister::DIVIDE_CONFIG => 0x3E0,
            LapicRegister::INITIAL_COUNT => 0x380,
            LapicRegister::CURRENT_COUNT => 0x390,
            LapicRegister::EOI => 0xB0,
            LapicRegister::SVR => 0xF0,
            LapicRegister::ID => 0x20,
            LapicRegister::VERSION => 0x30,
        }
    }

    /// The virtual address of the register.
    pub fn address(self) -> (a: u64)
        ensures
            a == LAPIC_VIRT_BASE + self.spec_offset(),
    {
        LAPIC_VIRT_BASE + self.offset()
    }
}

/// A write of a value to a register.
#[derive(Clone, Copy, Debug, PartialEq, Eq, Structural)]
pub struct LapicWrite {
    pub reg: LapicRegister,
    pub value: u32,
}

/// The value of a model-specific register, from the halves that `rdmsr`
/// leaves in two registers.
pub fn msr_value(low: u32, high: u32) -> (v: u64)
    ensures
        v == high * 0x1_0000_0000 + low,
{
    assert(((high as u64) << 32) | (low as u64) == high * 0x1_0000_0000 + low) by (bit_vector);
    ((high as u64) << 32) | (low as u64)
}

/// The APIC identifier, which `cpuid` leaves in the top byte of a register.
pub fn apic_id_of(ebx: u32) -> (id: u8)
    ensures
        id == ebx / 0x100_0000,
{
    assert((ebx >> 24) & 0xFF == ebx / 0x100_0000) by (bit_vector);
    ((ebx >> 24) & 0xFF) as u8
}

/// The APIC is enabled: bit 11 of its base register is set.
pub open spec fn enabled(apic_base: u64) -> bool {
    (apic_base >> 11) & 1 == 1
}

/// Tells whether the APIC is enabled, by its base register.
pub fn lapic_enabled(apic_base: u64) -> (b: bool)
    ensures
        b == enabled(apic_base),
{
    (apic_base >> 11) & 1 == 1
}

/// The physical base of the APIC, by its base register.
pub fn lapic_phys_base(apic_base: u64) -> (base: u64)
    ensures
        base == apic_base & 0xFFFFF000,
        base % 0x1000 == 0,
        base <= 0xFFFF_F000,
{
    assert((apic_base & 0xFFFFF000) % 0x1000 == 0 && (apic_base & 0xFFFFF000) <= 0xFFFF_F000)
        by (bit_vector);
    apic_base & 0xFFFFF000
}

/// The timer entry of the local vector table for a vector and a mode.
pub open spec fn timer_entry(vector: u8, mode: LapicTimer) -> u32 {
    (vector as u32) | mode.spec_bits()
}

/// The writes that configure the APIC, in their order: enable it with the
/// spurious vector, divide the timer by 16, make the timer periodic on its
/// vector, and start it with the initial count.
pub open spec fn setup_writes() -> Seq<LapicWrite> {
    seq![
        LapicWrite { reg: LapicRegister::SVR, value: 0x1FF },
        LapicWrite { reg: LapicRegister::DIVIDE_CONFIG, value: DIVIDE_BY_16 },
        LapicWrite {
            reg: LapicRegister::LVT_TIMER,
            value: timer_entry(LAPIC_TIMER_VECTOR, LapicTimer::Periodic),
        },
        LapicWrite { reg: LapicRegister::INITIAL_COUNT, value: TIMER_INITIAL_COUNT },
    ]
}

/// Plans the configuration of an APIC that is enabled, by its base
/// register: the writes to make, in their order, and no others. Whether
/// the APIC is enabled is for the caller to test with `lapic_enabled`; a
/// kernel cannot go on without it.
pub fn setup_apic(apic_base: u64) -> (writes: Vec<LapicWrite>)
    requires
        enabled(apic_base),
    ensures
        writes@ == setup_writes(),
        writes@[2].value == 0x2_0031,
{
    assert(SVR_ENABLE | SPURIOUS_VECTOR == 0x1FF) by (bit_vector);
    assert(0x31u32 | 0x2_0000u32 == 0x2_0031u32) by (bit_vector);
    let mut writes: Vec<LapicWrite> = Vec::new();
    writes.push(LapicWrite { reg: LapicRegister::SVR, value: SVR_ENABLE | SPURIOUS_VECTOR });
    writes.push(LapicWrite { reg: LapicRegister::DIVIDE_CONFIG, value: DIVIDE_BY_16 });
    writes.push(
        LapicWrite {
            reg: LapicRegister::LVT_TIMER,
            value: (LAPIC_TIMER_VECTOR as u32) | LapicTimer::Periodic.bits(),
        },
    );
    writes.push(LapicWrite { reg: LapicRegister::INITIAL_COUNT, value: TIMER_INITIAL_COUNT });
    proof {
        assert(writes@ =~= setup_writes());
    }
    writes
}

/// The write that signals the end of an interrupt.
pub fn send_eoi() -> (w: LapicWrite)
    ensures
        w == (LapicWrite { reg: LapicRegister::EOI, value: 0 }),
{
    LapicWrite { reg: LapicRegister::EOI, value: 0 }
}

/// A timer entry holds its vector in the low byte and its mode above it:
/// both can be read back.
pub proof fn lemma_timer_entry(vector: u8, mode: LapicTimer)
    ensures
        timer_entry(vector, mode) & 0xFF == vector,
        timer_entry(vector, mode) & 0x6_0000 == mode.spec_bits(),
{
    let v = vector as u32;
    assert(v <= 0xFF);
    assert(v <= 0xFF ==> (v | 0u32) & 0xFF == v && (v | 0u32) & 0x6_0000 == 0) by (bit_vector);
    assert(v <= 0xFF ==> (v | 0x2_0000u32) & 0xFF == v && (v | 0x2_0000u32) & 0x6_0000 == 0x2_0000)
        by (bit_vector);
    assert(v <= 0xFF ==> (v | 0x4_0000u32) & 0xFF == v && (v | 0x4_0000u32) & 0x6_0000 == 0x4_0000)
        by (bit_vector);
}

} // verus!

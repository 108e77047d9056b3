//! Per-hart CPU primitives.

use vstd::prelude::*;

use super::regs;
use super::regs::CsrFile;
use super::regs::sstatus::SSTATUS_SIE;
use super::regs::sstatus::sie_set;
use crate::kernel::sched::cpu::Cpu;

verus! {

/// Callee-saved registers of a kernel context.
#[derive(Debug, Clone, Copy, PartialEq, Eq, Structural)]
pub struct Context {
    pub ra: usize,
    pub sp: usize,
    pub s0: usize,
    pub s1: usize,
    pub s2: usize,
    pub s3: usize,
    pub s4: usize,
    pub s5: usize,
    pub s6: usize,
    pub s7: usize,
    pub s8: usize,
    pub s9: usize,
    pub s10: usize,
    pub s11: usize,
}

impl Context {
    /// A context with every register zero.
    pub fn new() -> (r: Self)
        ensures
            r == (Context {
                ra: 0, sp: 0, s0: 0, s1: 0, s2: 0, s3: 0, s4: 0, s5: 0, s6: 0, s7: 0, s8: 0, s9: 0, s10: 0, s11: 0,
            }),
    {
        Self {
            ra: 0,
            sp: 0,
            s0: 0,
            s1: 0,
            s2: 0,
            s3: 0,
            s4: 0,
            s5: 0,
            s6: 0,
            s7: 0,
            s8: 0,
            s9: 0,
            s10: 0,
            s11: 0,
        }
    }
}

/// Atomically adds one to the preemption counter of the CPU that `tp` points to (a 32-bit
/// wrapping add, as `amoadd.w` does).
pub fn amoinc_preempt(cpu: &mut Cpu)
    ensures
        final(cpu).spec_npreempt() == old(cpu).spec_npreempt().wrapping_add(1),
        final(cpu).same_but_npreempt(*old(cpu)),
{
    cpu.add_npreempt(1);
}

/// Atomically subtracts one from the preemption counter (a 32-bit wrapping add of -1).
pub fn amodec_preempt(cpu: &mut Cpu)
    ensures
        final(cpu).spec_npreempt() == old(cpu).spec_npreempt().wrapping_sub(1),
        final(cpu).same_but_npreempt(*old(cpu)),
{
    cpu.add_npreempt(0xFFFF_FFFF);
}

/// Whether supervisor interrupts are enabled.
pub fn irq_get(csr: &CsrFile) -> (r: bool)
    ensures
        r == sie_set(csr.sstatus),
{
    regs::sstatus::read_sie(csr)
}

/// Disables interrupts and returns the previous `sstatus`.
pub fn irq_save(csr: &mut CsrFile) -> (r: usize)
    ensures
        r == old(csr).sstatus,
        *final(csr) == (CsrFile { sstatus: old(csr).sstatus & !SSTATUS_SIE, ..*old(csr) }),
{
    regs::sstatus::irq_save(csr)
}

/// Re-enables interrupts when `flags` has SIE set.
pub fn irq_restore(csr: &mut CsrFile, flags: usize)
    ensures
        *final(csr) == (CsrFile { sstatus: old(csr).sstatus | (flags & SSTATUS_SIE), ..*old(csr) }),
{
    regs::sstatus::irq_restore(csr, flags)
}

/// Address of this CPU's per-CPU data, which `tp` holds.
pub fn this_cpu_raw(csr: &CsrFile) -> (r: usize)
    ensures
        r == csr.tp,
{
    regs::tp::read(csr)
}

/// Makes `tp` designate the per-CPU data at address `cpu_instance`.
pub fn set_this_cpu(csr: &mut CsrFile, cpu_instance: usize)
    ensures
        *final(csr) == (CsrFile { tp: cpu_instance, ..*old(csr) }),
{
    regs::tp::write(csr, cpu_instance);
}

/// The raw CPU id kept in `tp` during early boot.
pub fn cpuid_raw(csr: &CsrFile) -> (r: usize)
    ensures
        r == csr.tp,
{
    regs::tp::read(csr)
}

} // verus!

//! Per-CPU data and the guards that pin a task to its CPU.

use vstd::prelude::*;

use crate::arch::riscv64::cpu::cpu as arch_cpu;
use crate::arch::riscv64::cpu::cpu::Context;
use crate::arch::riscv64::cpu::regs::CsrFile;
use crate::arch::riscv64::cpu::regs::sstatus::SSTATUS_SIE;
use crate::arch::riscv64::cpu::regs::sstatus::sie_set;
use crate::cpu::numa::NId;
use crate::cpu::CpuDev;
use crate::cpu::CpuId;

verus! {

/// Per-CPU state flags.
#[derive(Clone, Copy, Debug, PartialEq, Eq, Structural)]
pub struct CpuFlags {
    bits: u32,
}

impl CpuFlags {
    /// If no preemption occurs during the interrupt return, this CPU should reschedule.
    pub const NEED_RESCHED: u32 = 1;

    /// The raw bit pattern.
    pub closed spec fn spec_bits(self) -> u32 {
        self.bits
    }

    /// No flag set.
    pub fn empty() -> (r: Self)
        ensures
            r.spec_bits() == 0,
    {
        CpuFlags { bits: 0 }
    }

    /// Keeps the named bits of `bits`.
    pub fn from_bits_truncate(bits: u32) -> (r: Self)
        ensures
            r.spec_bits() == bits & Self::NEED_RESCHED,
    {
        CpuFlags { bits: bits & Self::NEED_RESCHED }
    }

    /// The raw bit pattern.
    pub fn bits(&self) -> (r: u32)
        ensures
            r == self.spec_bits(),
    {
        self.bits
    }

    /// Whether every flag of `other` is set in `self`.
    pub fn contains(&self, other: u32) -> (r: bool)
        ensures
            r == (self.spec_bits() & other == other),
    {
        self.bits & other == other
    }
}

/// Per-CPU data.
pub struct Cpu {
    /// Preemption nesting depth.
    npreempt: u32,
    /// Address of the task running on this CPU, if any.
    task: Option<usize>,
    /// Architecture-specific CPU context.
    context: Context,
    dev: CpuDev,
    flags: CpuFlags,
}

impl Cpu {
    pub closed spec fn spec_npreempt(&self) -> u32 {
        self.npreempt
    }

    pub closed spec fn spec_id(&self) -> usize {
        self.dev.id.0
    }

    pub closed spec fn spec_nid(&self) -> usize {
        self.dev.nid.0
    }

    pub closed spec fn spec_ticks(&self) -> u64 {
        self.dev.ticks
    }

    pub closed spec fn spec_flags(&self) -> u32 {
        self.flags.spec_bits()
    }

    /// `self` and `other` differ at most in the preemption counter.
    pub closed spec fn same_but_npreempt(&self, other: Cpu) -> bool {
        &&& self.task == other.task
        &&& self.context == other.context
        &&& self.dev == other.dev
        &&& self.flags == other.flags
    }

    /// The boot CPU before initialisation: no task, no preemption, CPU and node 0.
    pub fn boot() -> (r: Self)
        ensures
            r.spec_npreempt() == 0,
            r.spec_id() == 0,
            r.spec_nid() == 0,
            r.spec_ticks() == 0,
            r.spec_flags() == 0,
    {
        Cpu {
            npreempt: 0,
            task: None,
            context: Context::new(),
            dev: CpuDev::new(CpuId::new(0), NId::new(0), 0),
            flags: CpuFlags::empty(),
        }
    }

    /// Sets the CPU id.
    pub fn set_id(&mut self, id: CpuId)
        ensures
            final(self).spec_id() == id.0,
            final(self).spec_npreempt() == old(self).spec_npreempt(),
            final(self).spec_nid() == old(self).spec_nid(),
            final(self).spec_ticks() == old(self).spec_ticks(),
            final(self).spec_flags() == old(self).spec_flags(),
    {
        self.dev.id = id;
    }

    /// Makes `tp` designate the per-CPU data at address `cpu_instance`.
    pub fn set_this_cpu(csr: &mut CsrFile, cpu_instance: usize)
        ensures
            *final(csr) == (CsrFile { tp: cpu_instance, ..*old(csr) }),
    {
        arch_cpu::set_this_cpu(csr, cpu_instance);
    }

    /// Adds `delta` to the preemption counter, wrapping at 32 bits.
    pub(crate) fn add_npreempt(&mut self, delta: u32)
        ensures
            final(self).spec_npreempt() == old(self).spec_npreempt().wrapping_add(delta),
            final(self).same_but_npreempt(*old(self)),
    {
        self.npreempt = self.npreempt.wrapping_add(delta);
    }
}

/// An immutable reference to per-CPU data.
pub struct CpuRef<'a> {
    inner: &'a Cpu,
}

/// A mutable reference to per-CPU data.
pub struct CpuMut<'a> {
    pub inner: &'a mut Cpu,
}

impl<'a> CpuRef<'a> {
    pub closed spec fn cpu(&self) -> Cpu {
        *self.inner
    }

    /// A shared view of `cpu`.
    pub fn new(cpu: &'a Cpu) -> (r: Self)
        ensures
            r.cpu() == *cpu,
    {
        CpuRef { inner: cpu }
    }

    pub fn id(&self) -> (r: CpuId)
        ensures
            r.0 == self.cpu().spec_id(),
    {
        self.inner.dev.id
    }

    pub fn npreempt(&self) -> (r: u32)
        ensures
            r == self.cpu().spec_npreempt(),
    {
        self.inner.npreempt
    }

    pub fn nid(&self) -> (r: NId)
        ensures
            r.0 == self.cpu().spec_nid(),
    {
        self.inner.dev.nid
    }

    pub fn ticks(&self) -> (r: u64)
        ensures
            r == self.cpu().spec_ticks(),
    {
        self.inner.dev.ticks
    }

    pub fn flags(&self) -> (r: CpuFlags)
        ensures
            r.spec_bits() == self.cpu().spec_flags(),
    {
        self.inner.flags
    }

    /// Whether the CPU should reschedule.
    pub fn need_resched(&self) -> (r: bool)
        ensures
            r == (self.cpu().spec_flags() & CpuFlags::NEED_RESCHED == CpuFlags::NEED_RESCHED),
    {
        self.inner.flags.contains(CpuFlags::NEED_RESCHED)
    }
}


impl<'a> CpuMut<'a> {
    pub closed spec fn cpu(&self) -> Cpu {
        *self.inner
    }

    /// Exclusive access to `cpu`.
    pub fn new(cpu: &'a mut Cpu) -> (r: Self)
        ensures
            r.cpu() == *old(cpu),
            *final(cpu) == *final(r.inner),
    {
        CpuMut { inner: cpu }
    }

    pub fn as_ref(&self) -> (r: CpuRef<'_>)
        ensures
            r.cpu() == self.cpu(),
    {
        CpuRef { inner: &*self.inner }
    }

    pub fn id(&self) -> (r: CpuId)
        ensures
            r.0 == self.cpu().spec_id(),
    {
        self.inner.dev.id
    }

    /// Counts one more timer tick.
    pub fn inc_ticks(&mut self)
        requires
            old(self).cpu().spec_ticks() < u64::MAX,
        ensures
            final(self).cpu().spec_ticks() == old(self).cpu().spec_ticks() + 1,
            final(self).cpu().spec_npreempt() == old(self).cpu().spec_npreempt(),
            final(self).cpu().spec_flags() == old(self).cpu().spec_flags(),
            final(self).cpu().spec_id() == old(self).cpu().spec_id(),
            final(self).cpu().spec_nid() == old(self).cpu().spec_nid(),
            *final(final(self).inner) == *final(old(self).inner),
    {
        self.inner.dev.ticks = self.inner.dev.ticks + 1;
    }

    /// Resets the tick count.
    pub fn zero_ticks(&mut self)
        ensures
            final(self).cpu().spec_ticks() == 0,
            final(self).cpu().spec_npreempt() == old(self).cpu().spec_npreempt(),
            final(self).cpu().spec_flags() == old(self).cpu().spec_flags(),
            final(self).cpu().spec_id() == old(self).cpu().spec_id(),
            final(self).cpu().spec_nid() == old(self).cpu().spec_nid(),
            *final(final(self).inner) == *final(old(self).inner),
    {
        self.inner.dev.ticks = 0;
    }

    /// Replaces the flags.
    pub fn set_flags(&mut self, flags: CpuFlags)
        ensures
            final(self).cpu().spec_flags() == flags.spec_bits(),
            final(self).cpu().spec_ticks() == old(self).cpu().spec_ticks(),
            final(self).cpu().spec_npreempt() == old(self).cpu().spec_npreempt(),
            final(self).cpu().spec_id() == old(self).cpu().spec_id(),
            final(self).cpu().spec_nid() == old(self).cpu().spec_nid(),
            *final(final(self).inner) == *final(old(self).inner),
    {
        self.inner.flags = flags;
    }

    /// Replaces the CPU id; only the boot path uses this.
    pub(crate) fn set_id(&mut self, id: CpuId)
        ensures
            final(self).cpu().spec_id() == id.0,
            final(self).cpu().spec_nid() == old(self).cpu().spec_nid(),
            final(self).cpu().spec_ticks() == old(self).cpu().spec_ticks(),
            final(self).cpu().spec_npreempt() == old(self).cpu().spec_npreempt(),
            final(self).cpu().spec_flags() == old(self).cpu().spec_flags(),
            *final(final(self).inner) == *final(old(self).inner),
    {
        self.inner.dev.id = id;
    }
}

/// Guard that keeps preemption disabled while it lives: creating it raises the preemption
/// counter of the current CPU, releasing it lowers the counter again.
pub struct PreemptGuard {
    _private: (),
}

impl PreemptGuard {
    /// Disables preemption on `cpu` (the CPU that `tp` designates) and returns a guard.
    pub fn new(cpu: &mut Cpu) -> (r: Self)
        ensures
            final(cpu).spec_npreempt() == old(cpu).spec_npreempt().wrapping_add(1),
            final(cpu).same_but_npreempt(*old(cpu)),
    {
        arch_cpu::amoinc_preempt(cpu);
        PreemptGuard { _private: () }
    }

    /// Shared access to the current CPU while the guard lives.
    pub fn cpu<'a>(&self, cpu: &'a Cpu) -> (r: CpuRef<'a>)
        ensures
            r.cpu() == *cpu,
    {
        CpuRef::new(cpu)
    }

    /// Exclusive access to the current CPU while the guard lives.
    pub fn cpu_mut<'a>(&mut self, cpu: &'a mut Cpu) -> (r: CpuMut<'a>)
        ensures
            r.cpu() == *old(cpu),
            *final(cpu) == *final(r.inner),
    {
        CpuMut::new(cpu)
    }

    /// Ends the guard: lowers the preemption counter again.
    pub fn release(self, cpu: &mut Cpu)
        ensures
            final(cpu).spec_npreempt() == old(cpu).spec_npreempt().wrapping_sub(1),
            final(cpu).same_but_npreempt(*old(cpu)),
    {
        arch_cpu::amodec_preempt(cpu);
    }
}

/// Guard that keeps interrupts disabled while it lives: creating it saves `sstatus` and
/// clears SIE, releasing it sets SIE again if it was set when the guard was made.
pub struct IrqGuard {
    saved: usize,
}

impl IrqGuard {
    /// The `sstatus` value saved when the guard was made.
    pub closed spec fn spec_saved(&self) -> usize {
        self.saved
    }

    /// Saves the interrupt state and disables interrupts.
    pub fn new(csr: &mut CsrFile) -> (r: Self)
        ensures
            r.spec_saved() == old(csr).sstatus,
            *final(csr) == (CsrFile { sstatus: old(csr).sstatus & !SSTATUS_SIE, ..*old(csr) }),
    {
        let saved = arch_cpu::irq_save(csr);
        IrqGuard { saved }
    }

    /// Shared access to the current CPU while the guard lives.
    pub fn cpu<'a>(&self, cpu: &'a Cpu) -> (r: CpuRef<'a>)
        ensures
            r.cpu() == *cpu,
    {
        CpuRef::new(cpu)
    }

    /// Exclusive access to the current CPU while the guard lives.
    pub fn cpu_mut<'a>(&mut self, cpu: &'a mut Cpu) -> (r: CpuMut<'a>)
        ensures
            r.cpu() == *old(cpu),
            *final(cpu) == *final(r.inner),
    {
        CpuMut::new(cpu)
    }

    /// Whether interrupts are currently enabled.
    pub fn intena(&self, csr: &CsrFile) -> (r: bool)
        ensures
            r == sie_set(csr.sstatus),
    {
        arch_cpu::irq_get(csr)
    }

    /// Ends the guard: restores SIE from the saved state.
    pub fn release(self, csr: &mut CsrFile)
        ensures
            *final(csr) == (CsrFile { sstatus: old(csr).sstatus | (self.spec_saved() & SSTATUS_SIE), ..*old(csr) }),
    {
        arch_cpu::irq_restore(csr, self.saved);
    }
}

/// Disabling preemption and enabling it again gives back the counter it started from.
pub proof fn lemma_preempt_guard_balanced(n: u32)
    ensures
        n.wrapping_add(1).wrapping_sub(1) == n,
{
}

/// An interrupt guard made and released with nothing in between gives `sstatus` back as
/// it was; inside it, interrupts are off. Nested guards keep interrupts off until the
/// outer one is released.
pub proof fn lemma_irq_guard_restores(s: usize)
    ensures
        !sie_set(s & !SSTATUS_SIE),
        (s & !SSTATUS_SIE) | (s & SSTATUS_SIE) == s,
        ((s & !SSTATUS_SIE) & !SSTATUS_SIE) | ((s & !SSTATUS_SIE) & SSTATUS_SIE) == s & !SSTATUS_SIE,
{
    assert((s & !2usize) & 2usize == 0) by (bit_vector);
    assert((s & !2usize) | (s & 2usize) == s) by (bit_vector);
    assert(((s & !2usize) & !2usize) | ((s & !2usize) & 2usize) == s & !2usize) by (bit_vector);
}

} // verus!

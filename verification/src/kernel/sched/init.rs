//! Boot CPU initialisation.

use vstd::prelude::*;

use super::cpu::Cpu;
use crate::arch::riscv64::cpu::cpu as arch_cpu;
use crate::arch::riscv64::cpu::regs::CsrFile;
use crate::cpu::CpuId;

verus! {

/// Takes the boot CPU's id from `tp`, stores it in the boot CPU's data, and makes `tp`
/// designate that data, found at `boot_cpu_addr`.
pub fn boot_cpu_init(csr: &mut CsrFile, boot_cpu: &mut Cpu, boot_cpu_addr: usize)
    ensures
        final(boot_cpu).spec_id() == old(csr).tp,
        final(boot_cpu).spec_npreempt() == old(boot_cpu).spec_npreempt(),
        final(boot_cpu).spec_ticks() == old(boot_cpu).spec_ticks(),
        final(boot_cpu).spec_flags() == old(boot_cpu).spec_flags(),
        *final(csr) == (CsrFile { tp: boot_cpu_addr, ..*old(csr) }),
{
    let id = CpuId::new(arch_cpu::cpuid_raw(csr));
    boot_cpu.set_id(id);
    arch_cpu::set_this_cpu(csr, boot_cpu_addr);
}

} // verus!

use rvkernel::arch::riscv64::cpu::cpu as arch_cpu;
use rvkernel::arch::riscv64::cpu::cpu::Context;
use rvkernel::arch::riscv64::cpu::regs;
use rvkernel::arch::riscv64::cpu::regs::CsrFile;
use rvkernel::arch::riscv64::trap::trap_set_vec;
use rvkernel::cpu::numa::NId;
use rvkernel::cpu::CpuDev;
use rvkernel::cpu::CpuId;
use rvkernel::kernel::sched::cpu::Cpu;
use rvkernel::kernel::sched::cpu::CpuFlags;
use rvkernel::kernel::sched::cpu::CpuMut;
use rvkernel::kernel::sched::cpu::CpuRef;
use rvkernel::kernel::sched::cpu::IrqGuard;
use rvkernel::kernel::sched::cpu::PreemptGuard;
use rvkernel::kernel::sched::init::boot_cpu_init;

#[test]
fn sstatus_save_restore() {
    let mut c = CsrFile::new();
    regs::sstatus::write(&mut c, 0x122);
    assert!(regs::sstatus::read_sie(&c));
    let saved = regs::sstatus::irq_save(&mut c);
    assert_eq!(saved, 0x122);
    assert_eq!(regs::sstatus::read(&c), 0x120);
    assert!(!regs::sstatus::read_sie(&c));
    regs::sstatus::irq_restore(&mut c, saved);
    assert_eq!(regs::sstatus::read(&c), 0x122);
    regs::sstatus::clear_sie(&mut c);
    assert_eq!(c.sstatus, 0x120);
    regs::sstatus::set_sie(&mut c);
    assert_eq!(c.sstatus, 0x122);
}

#[test]
fn restore_of_disabled_state_keeps_off() {
    let mut c = CsrFile::new();
    regs::sstatus::write(&mut c, 0x100);
    let saved = regs::sstatus::irq_save(&mut c);
    regs::sstatus::irq_restore(&mut c, saved);
    assert_eq!(c.sstatus, 0x100);
}

#[test]
fn sie_bits() {
    let mut c = CsrFile::new();
    regs::sie::set_stie(&mut c);
    regs::sie::set_ssie(&mut c);
    regs::sie::set_seie(&mut c);
    assert_eq!(regs::sie::read(&c), 0x222);
    regs::sie::clear_ssie(&mut c);
    assert_eq!(c.sie, 0x220);
    regs::sie::clear_stie(&mut c);
    regs::sie::clear_seie(&mut c);
    assert_eq!(c.sie, 0);
    regs::sie::write(&mut c, 7);
    assert_eq!(c.sie, 7);
}

#[test]
fn other_registers() {
    let mut c = CsrFile::new();
    regs::tp::write(&mut c, 11);
    regs::stvec::write(&mut c, 12);
    regs::sepc::write(&mut c, 13);
    regs::stval::write(&mut c, 14);
    regs::scause::write(&mut c, 15);
    regs::stimecmp::write(&mut c, 16);
    assert_eq!(regs::tp::read(&c), 11);
    assert_eq!(regs::stvec::read(&c), 12);
    assert_eq!(regs::sepc::read(&c), 13);
    assert_eq!(regs::stval::read(&c), 14);
    assert_eq!(regs::scause::read(&c), 15);
    assert_eq!(regs::stimecmp::read(&c), 16);
    regs::satp::write(&mut c, 1);
    assert_eq!(regs::satp::swap(&mut c, 2), 1);
    assert_eq!(regs::satp::read(&c), 2);
    trap_set_vec(&mut c, 0x8020_0000);
    assert_eq!(c.stvec, 0x8020_0000);
}

#[test]
fn preempt_guard_counts() {
    let mut cpu = Cpu::boot();
    let g1 = PreemptGuard::new(&mut cpu);
    assert_eq!(CpuRef::new(&cpu).npreempt(), 1);
    let g2 = PreemptGuard::new(&mut cpu);
    assert_eq!(g2.cpu(&cpu).npreempt(), 2);
    g2.release(&mut cpu);
    assert_eq!(CpuRef::new(&cpu).npreempt(), 1);
    g1.release(&mut cpu);
    assert_eq!(CpuRef::new(&cpu).npreempt(), 0);
}

#[test]
fn preempt_counter_wraps() {
    let mut cpu = Cpu::boot();
    arch_cpu::amodec_preempt(&mut cpu);
    assert_eq!(CpuRef::new(&cpu).npreempt(), u32::MAX);
    arch_cpu::amoinc_preempt(&mut cpu);
    assert_eq!(CpuRef::new(&cpu).npreempt(), 0);
}

#[test]
fn irq_guard_nesting() {
    let mut c = CsrFile::new();
    regs::sstatus::write(&mut c, 0x2);
    let outer = IrqGuard::new(&mut c);
    assert!(!outer.intena(&c));
    let inner = IrqGuard::new(&mut c);
    assert!(!inner.intena(&c));
    inner.release(&mut c);
    assert!(!arch_cpu::irq_get(&c));
    outer.release(&mut c);
    assert!(arch_cpu::irq_get(&c));
    assert_eq!(c.sstatus, 0x2);
}

#[test]
fn cpu_accessors() {
    let mut cpu = Cpu::boot();
    {
        let g = PreemptGuard::new(&mut cpu);
        g.release(&mut cpu);
        let mut m = CpuMut::new(&mut cpu);
        m.inc_ticks();
        m.inc_ticks();
        m.set_flags(CpuFlags::from_bits_truncate(CpuFlags::NEED_RESCHED));
        assert_eq!(m.as_ref().ticks(), 2);
        assert!(m.as_ref().need_resched());
        assert_eq!(m.id().get(), 0);
    }
    let r = CpuRef::new(&cpu);
    assert_eq!(r.ticks(), 2);
    assert!(r.need_resched());
    assert_eq!(r.flags().bits(), 1);
    assert_eq!(r.nid().get(), 0);
    let mut m = CpuMut::new(&mut cpu);
    m.zero_ticks();
    m.set_flags(CpuFlags::empty());
    assert_eq!(CpuRef::new(&cpu).ticks(), 0);
    assert!(!CpuRef::new(&cpu).need_resched());
}

#[test]
fn boot_cpu_takes_id_from_tp() {
    let mut c = CsrFile::new();
    regs::tp::write(&mut c, 3);
    let mut cpu = Cpu::boot();
    boot_cpu_init(&mut c, &mut cpu, 0x8030_0000);
    assert_eq!(CpuRef::new(&cpu).id().get(), 3);
    assert_eq!(c.tp, 0x8030_0000);
    assert_eq!(arch_cpu::cpuid_raw(&c), 0x8030_0000);
}

#[test]
fn context_and_dev() {
    let ctx = Context::new();
    assert_eq!(ctx.ra, 0);
    assert_eq!(ctx.s11, 0);
    let d = CpuDev::new(CpuId::new(2), NId::new(1), 5);
    assert_eq!(d.id.get(), 2);
    assert_eq!(d.nid.get(), 1);
    assert_eq!(d.ticks, 5);
    assert!(CpuFlags::from_bits_truncate(3).contains(CpuFlags::NEED_RESCHED));
    assert_eq!(CpuFlags::from_bits_truncate(6).bits(), 0);
}

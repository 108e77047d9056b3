use rvkernel::arch::riscv64::boot::boot::copy_dtb_target;
use rvkernel::arch::riscv64::boot::boot::early_boot_init;
use rvkernel::arch::riscv64::boot::boot_alloc::BootAllocator;
use rvkernel::arch::riscv64::boot::linker::LinkerLayout;
use rvkernel::arch::riscv64::boot::vm::map_1gb_entry;
use rvkernel::arch::riscv64::boot::vm::setup_boot_vm;
use rvkernel::arch::riscv64::cpu::regs::satp::MODE_SV48;
use rvkernel::arch::riscv64::vm::pte::PTEFlags;
use rvkernel::arch::riscv64::vm::sv::sv39::Sv39Config;
use rvkernel::arch::riscv64::vm::sv::sv48::Sv48Config;
use rvkernel::mm::addr::PhysAddr;
use rvkernel::mm::addr::VirtAddr;

fn qemu_layout() -> LinkerLayout {
    LinkerLayout {
        kernel_vma_base: 0xffff_ffc0_8020_0000,
        kernel_lma_base: 0x8020_0000,
        physical_base: 0x8000_0000,
    }
}

fn gig_leaf(phys: u64) -> u64 {
    ((phys >> 12) << 10) | PTEFlags::BOOT
}

#[test]
fn allocator_aligns_and_bumps() {
    let mut a = BootAllocator::new(0x8040_0123);
    let p0 = a.alloc_page();
    let p1 = a.alloc_page();
    assert_eq!(p0, 0x8040_1000);
    assert_eq!(p1, 0x8040_2000);
    assert_eq!(a.end(), 0x8040_3000);
    assert_eq!(a.read_entry(p1, 511), 0);
}

#[test]
fn allocator_aligned_base_kept() {
    let mut a = BootAllocator::new(0x8040_0000);
    assert_eq!(a.end(), 0x8040_0000);
    assert_eq!(a.alloc_page(), 0x8040_0000);
}

#[test]
fn allocator_write_then_read() {
    let mut a = BootAllocator::new(0x1000);
    let p = a.alloc_page();
    let q = a.alloc_page();
    let pte = rvkernel::kernel::vm::pte::PTE::from_raw(0x1234_5401);
    a.write_entry(q, 7, pte);
    assert_eq!(a.read_entry(q, 7), 0x1234_5401);
    assert_eq!(a.read_entry(p, 7), 0);
    assert_eq!(a.read_entry(q, 8), 0);
}

#[test]
fn sv48_boot_table_maps_identity_and_linear() {
    let layout = qemu_layout();
    let mut a = BootAllocator::new(0x8060_0000);
    let root = setup_boot_vm::<Sv48Config>(&mut a, 0x8800_0000, &layout);
    assert_eq!(root, 0x8060_0000);
    // identity: va 0x8000_0000 -> root[0] -> table[2]
    let low = a.read_entry(root, 0);
    assert_eq!(low & 1, 1);
    let low_table = ((low >> 10) << 12) as usize;
    assert_eq!(a.read_entry(low_table, 2), gig_leaf(0x8000_0000));
    // linear: va 0xffff_ffc0_8000_0000 -> root[511] -> table[258]
    let high = a.read_entry(root, 511);
    assert_eq!(high & 1, 1);
    let high_table = ((high >> 10) << 12) as usize;
    assert_ne!(low_table, high_table);
    assert_eq!(a.read_entry(high_table, 258), gig_leaf(0x8000_0000));
    // one root and two second-level tables
    assert_eq!(a.end(), 0x8060_3000);
    assert_eq!(a.read_entry(root, 1), 0);
}

#[test]
fn sv39_boot_table_uses_root_directly() {
    let layout = qemu_layout();
    let mut a = BootAllocator::new(0x8060_0000);
    let root = setup_boot_vm::<Sv39Config>(&mut a, 0x1_0000_0000, &layout);
    assert_eq!(a.end(), 0x8060_1000);
    assert_eq!(a.read_entry(root, 2), gig_leaf(0x8000_0000));
    assert_eq!(a.read_entry(root, 3), gig_leaf(0xC000_0000));
    assert_eq!(a.read_entry(root, 258), gig_leaf(0x8000_0000));
    assert_eq!(a.read_entry(root, 259), gig_leaf(0xC000_0000));
    assert_eq!(a.read_entry(root, 4), 0);
}

#[test]
fn map_one_gigapage_reuses_table() {
    let mut a = BootAllocator::new(0x9000_0000);
    let root = a.alloc_page();
    map_1gb_entry::<Sv48Config>(&mut a, root, VirtAddr(0x4000_0000), PhysAddr(0x8000_0000));
    assert_eq!(a.end(), 0x9000_2000);
    map_1gb_entry::<Sv48Config>(&mut a, root, VirtAddr(0x8000_0000), PhysAddr(0xC000_0000));
    assert_eq!(a.end(), 0x9000_2000);
    let t = ((a.read_entry(root, 0) >> 10) << 12) as usize;
    assert_eq!(t, 0x9000_1000);
    assert_eq!(a.read_entry(t, 1), gig_leaf(0x8000_0000));
    assert_eq!(a.read_entry(t, 2), gig_leaf(0xC000_0000));
}

#[test]
fn dtb_copied_after_kernel() {
    assert_eq!(copy_dtb_target(0x8065_4321, 0x2000), (0x8065_5000, 0x8065_7000));
    assert_eq!(copy_dtb_target(0x8065_0000, 0x10), (0x8065_0000, 0x8065_0010));
}

#[test]
fn early_boot_records_and_builds_satp() {
    let layout = qemu_layout();
    let (satp, info, mut alloc) = early_boot_init::<Sv48Config>(0x8070_0000, 0x8071_0010, &layout, MODE_SV48);
    assert_eq!(info.dtb_paddr, 0x8070_0000);
    assert_eq!(info.alloc_end, 0x8071_4000);
    assert_eq!(alloc.end(), 0x8071_4000);
    assert_eq!(satp, (9usize << 60) | (0x8071_1000usize >> 12));
}

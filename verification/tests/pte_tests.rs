use rvkernel::arch::riscv64::vm::pte::PTEFlags;
use rvkernel::kernel::vm::pte::PTE;
use rvkernel::mm::addr::PhysPageNum;
use rvkernel::mm::addr::VirtAddr;

#[test]
fn new_leaf_roundtrip() {
    let f = PTEFlags::from_bits_truncate(PTEFlags::KERNEL_RW);
    let p = PTE::new_leaf(PhysPageNum::new(0x80200), f);
    assert!(p.is_valid());
    assert!(p.is_leaf());
    assert!(!p.is_table());
    assert_eq!(p.ppn().as_usize(), 0x80200);
    assert_eq!(p.flags().bits(), PTEFlags::KERNEL_RW);
    assert_eq!(p.raw(), (0x80200u64 << 10) | 0x27);
}

#[test]
fn new_leaf_sets_valid_bit() {
    let p = PTE::new_leaf(PhysPageNum::new(5), PTEFlags::from_bits_truncate(PTEFlags::R));
    assert_eq!(p.raw(), (5u64 << 10) | 0x3);
    assert!(p.is_leaf());
}

#[test]
fn leaf_without_rwx_is_not_leaf() {
    let p = PTE::new_leaf(PhysPageNum::new(5), PTEFlags::from_bits_truncate(PTEFlags::G));
    assert!(p.is_valid());
    assert!(!p.is_leaf());
    assert!(p.is_table());
}

#[test]
fn new_table_is_table() {
    let p = PTE::new_table(PhysPageNum::new(0x1234));
    assert!(p.is_valid());
    assert!(!p.is_leaf());
    assert!(p.is_table());
    assert_eq!(p.ppn().as_usize(), 0x1234);
    assert_eq!(p.pa().as_usize(), 0x1234 * 4096);
    assert_eq!(p.flags().bits(), PTEFlags::V);
}

#[test]
fn empty_and_clear() {
    let e = PTE::empty();
    assert_eq!(e.raw(), 0);
    assert!(!e.is_valid());
    let mut p = PTE::new_table(PhysPageNum::new(7));
    p.clear();
    assert_eq!(p.raw(), 0);
    assert!(!p.is_valid());
    assert!(!p.is_table());
}

#[test]
fn set_flags_keeps_ppn() {
    let mut p = PTE::new_leaf(PhysPageNum::new(0xABCDE), PTEFlags::from_bits_truncate(PTEFlags::KERNEL_RW));
    p.set_flags(PTEFlags::from_bits_truncate(PTEFlags::USER_RX));
    assert_eq!(p.ppn().as_usize(), 0xABCDE);
    assert_eq!(p.flags().bits(), PTEFlags::USER_RX);
}

#[test]
fn set_ppn_keeps_flags() {
    let mut p = PTE::new_leaf(PhysPageNum::new(1), PTEFlags::from_bits_truncate(PTEFlags::KERNEL_RX));
    p.set_ppn(PhysPageNum::new(0x5555));
    assert_eq!(p.ppn().as_usize(), 0x5555);
    assert_eq!(p.flags().bits(), PTEFlags::KERNEL_RX);
}

#[test]
fn from_raw_keeps_bits() {
    let p = PTE::from_raw(0xFFFF_FFFF_FFFF_FFFF);
    assert_eq!(p.raw(), u64::MAX);
    assert_eq!(p.flags().bits(), 0xFF);
    assert_eq!(p.ppn().as_usize(), 0xFFF_FFFF_FFFF);
}

#[test]
fn flags_truncate_unknown_bits() {
    let f = PTEFlags::from_bits_truncate(0x3FF);
    assert_eq!(f.bits(), 0xFF);
    assert!(f.contains(PTEFlags::from_bits_truncate(PTEFlags::BOOT)));
    let g = PTEFlags::from_bits_truncate(PTEFlags::R).union(PTEFlags::from_bits_truncate(PTEFlags::W));
    assert_eq!(g.bits(), PTEFlags::RW);
    assert_eq!(PTEFlags::empty().bits(), 0);
}

#[test]
fn flag_constants() {
    assert_eq!(PTEFlags::BOOT, PTEFlags::V | PTEFlags::R | PTEFlags::W | PTEFlags::X);
    assert_eq!(PTEFlags::KERNEL_RO, PTEFlags::V | PTEFlags::R | PTEFlags::G);
    assert_eq!(PTEFlags::KERNEL_RW, PTEFlags::V | PTEFlags::R | PTEFlags::W | PTEFlags::G);
    assert_eq!(PTEFlags::KERNEL_RX, PTEFlags::V | PTEFlags::R | PTEFlags::X | PTEFlags::G);
    assert_eq!(PTEFlags::USER_RO, PTEFlags::V | PTEFlags::R | PTEFlags::U);
    assert_eq!(PTEFlags::USER_RW, PTEFlags::V | PTEFlags::R | PTEFlags::W | PTEFlags::U);
    assert_eq!(PTEFlags::USER_RX, PTEFlags::V | PTEFlags::R | PTEFlags::X | PTEFlags::U);
    assert_eq!(PTEFlags::RWX, PTEFlags::R | PTEFlags::W | PTEFlags::X);
}

#[test]
fn index_of_levels() {
    let va = VirtAddr::new(0xffff_ffc0_8020_1000);
    assert_eq!(PTE::index_of(va, 0), (0xffff_ffc0_8020_1000usize >> 12) & 511);
    assert_eq!(PTE::index_of(va, 1), (0xffff_ffc0_8020_1000usize >> 21) & 511);
    assert_eq!(PTE::index_of(va, 2), (0xffff_ffc0_8020_1000usize >> 30) & 511);
    assert_eq!(PTE::index_of(va, 3), (0xffff_ffc0_8020_1000usize >> 39) & 511);
    assert_eq!(PTE::index_of(VirtAddr::new(0x8000_0000), 2), 2);
}

use rvkernel::arch::riscv64::vm::sv::sv39::Sv39Config;
use rvkernel::arch::riscv64::vm::sv::sv48::Sv48Config;
use rvkernel::kernel::vm::level::PageLevel;
use rvkernel::kernel::vm::pagetable::PageTable;
use rvkernel::kernel::vm::pagetable::PageTableConfig;
use rvkernel::kernel::vm::pagetable::PageTableRoot;
use rvkernel::kernel::vm::pte::PTE;
use rvkernel::mm::addr::PhysAddr;
use rvkernel::mm::addr::PhysPageNum;

#[test]
fn index_roundtrip() {
    for i in 0..4 {
        let l = PageLevel::from_index(i).unwrap();
        assert_eq!(l.as_index(), i);
    }
    assert_eq!(PageLevel::from_index(4), None);
    assert_eq!(PageLevel::from_index(usize::MAX), None);
    assert_eq!(PageLevel::MAX_LEVELS, 5);
}

#[test]
fn page_sizes_and_masks() {
    assert_eq!(PageLevel::PTE.page_size(), 0x1000);
    assert_eq!(PageLevel::PMD.page_size(), 0x20_0000);
    assert_eq!(PageLevel::PUD.page_size(), 0x4000_0000);
    assert_eq!(PageLevel::PGD.page_size(), 0x80_0000_0000);
    assert_eq!(PageLevel::PTE.page_mask(), 0xFFF);
    assert_eq!(PageLevel::PMD.page_mask(), 0x1F_FFFF);
}

#[test]
fn up_and_down() {
    assert_eq!(PageLevel::PGD.down(), Some(PageLevel::PUD));
    assert_eq!(PageLevel::PUD.down(), Some(PageLevel::PMD));
    assert_eq!(PageLevel::PMD.down(), Some(PageLevel::PTE));
    assert_eq!(PageLevel::PTE.down(), None);
    assert_eq!(PageLevel::PTE.up(), Some(PageLevel::PMD));
    assert_eq!(PageLevel::PGD.up(), None);
    assert_eq!(PageLevel::PGD.next(), Some(PageLevel::PUD));
    for i in 0..4 {
        let l = PageLevel::from_index(i).unwrap();
        if let Some(d) = l.down() {
            assert_eq!(d.up(), Some(l));
        }
        if let Some(u) = l.up() {
            assert_eq!(u.down(), Some(l));
        }
    }
}

#[test]
fn sv39_mapping() {
    assert_eq!(Sv39Config::physical_levels(), 3);
    assert_eq!(Sv39Config::root_level(), PageLevel::PGD);
    assert_eq!(Sv39Config::logical_to_physical(PageLevel::PGD), Some(2));
    assert_eq!(Sv39Config::logical_to_physical(PageLevel::PUD), None);
    assert_eq!(Sv39Config::logical_to_physical(PageLevel::PMD), Some(1));
    assert_eq!(Sv39Config::logical_to_physical(PageLevel::PTE), Some(0));
    assert_eq!(Sv39Config::physical_to_logical(2), PageLevel::PGD);
    assert_eq!(Sv39Config::physical_to_logical(1), PageLevel::PMD);
    assert_eq!(Sv39Config::physical_to_logical(0), PageLevel::PTE);
    assert!(Sv39Config::is_folded(PageLevel::PUD));
    assert!(!Sv39Config::is_folded(PageLevel::PGD));
}

#[test]
fn sv48_mapping() {
    assert_eq!(Sv48Config::physical_levels(), 4);
    for i in 0..4 {
        let l = Sv48Config::physical_to_logical(i);
        assert_eq!(Sv48Config::logical_to_physical(l), Some(i));
        assert!(!Sv48Config::is_folded(l));
    }
}

#[test]
fn page_table_basics() {
    let mut t = PageTable::empty();
    assert!(t.is_empty());
    *t.get_mut(3) = PTE::new_table(PhysPageNum::new(9));
    assert!(!t.is_empty());
    assert_eq!(t.get(3).ppn().as_usize(), 9);
    assert_eq!(t.get(4).raw(), 0);
    t.clear();
    assert!(t.is_empty());
    assert_eq!(t.get(3).raw(), 0);
}

#[test]
fn page_table_root() {
    let r = PageTableRoot::from_pa(PhysAddr::new(0x8040_3000));
    assert_eq!(r.root_pa().as_usize(), 0x8040_3000);
    assert_eq!(r.root_ppn().as_usize(), 0x80403);
}

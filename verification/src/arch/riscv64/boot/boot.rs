//! Decisions of the assembly boot phase: where the device tree goes, the boot page table,
//! and the `satp` value that turns paging on.

use vstd::prelude::*;

use super::boot_alloc::BootAllocator;
use super::boot_alloc::boot_align;
use super::linker::LinkerLayout;
use super::vm::boot_gig_count;
use super::vm::boot_leaf;
use super::vm::boot_map_start;
use super::vm::boot_slots_distinct;
use super::vm::boot_va;
use super::vm::gig_addr;
use super::vm::gig_entry;
use super::vm::is_boot_slot;
use super::vm::boot_map_end;
use super::vm::ppn_addr_limit;
use super::vm::root_wf;
use super::vm::setup_boot_vm;
use crate::arch::riscv64::vm::consts::level_shift_spec;
use crate::arch::riscv64::vm::init::satp_value;
use crate::arch::riscv64::vm::init::satp_value_spec;
use crate::config::PAGE_SIZE;
use crate::kernel::vm::pagetable::PageTableConfig;

verus! {

/// What the boot phase records for later initialisation.
#[derive(Clone, Copy, Debug, PartialEq, Eq, Structural)]
pub struct EarlyBootInfo {
    /// First address after the pages the boot phase allocated.
    pub alloc_end: usize,
    /// Physical address of the device tree.
    pub dtb_paddr: usize,
}

/// Where the device tree is copied: right after the kernel image, page aligned. Returns
/// the destination and the end of the copy (both computed with wrapping arithmetic).
pub fn copy_dtb_target(ekernel: usize, size: usize) -> (r: (usize, usize))
    ensures
        r.0 == boot_align(ekernel),
        r.1 == boot_align(ekernel).wrapping_add(size),
{
    let w = ekernel.wrapping_add(PAGE_SIZE - 1);
    let dst = w & !(PAGE_SIZE - 1);
    (dst, dst.wrapping_add(size))
}

/// The rest of the early boot once the device tree is at `dtb` and memory in use ends at
/// `mem_end`: a boot allocator from `mem_end`, the boot page table, the record of what was
/// used, and the `satp` value for paging mode `mode` with that table. When no two boot
/// mappings share a 1 GiB slot, the table maps each gibibyte of memory at its own address
/// and at its linear kernel address, and maps nothing outside those slots.
pub fn early_boot_init<C: PageTableConfig>(
    dtb: usize,
    mem_end: usize,
    layout: &LinkerLayout,
    mode: usize,
) -> (r: (usize, EarlyBootInfo, BootAllocator))
    requires
        usize::BITS == 64,
        C::spec_physical_levels() == 3 || C::spec_physical_levels() == 4,
        level_shift_spec((C::spec_physical_levels() - 1) as usize) < usize::BITS,
        layout.wf(),
        boot_map_end(mem_end) + layout.spec_offset() <= usize::MAX,
        boot_align(mem_end) + PAGE_SIZE * (2 * boot_gig_count(*layout, mem_end) + 2) <= ppn_addr_limit(),
        boot_align(mem_end) + PAGE_SIZE * (2 * boot_gig_count(*layout, mem_end) + 2) <= usize::MAX,
    ensures
        r.0 == satp_value_spec(mode, boot_align(mem_end)),
        r.1.dtb_paddr == dtb,
        r.1.alloc_end == r.2.spec_next_free(),
        r.2.wf(),
        r.2.spec_start() == boot_align(mem_end),
        root_wf(r.2.spec_start(), r.2.spec_pages(), boot_align(mem_end), C::spec_physical_levels()),
        boot_slots_distinct(boot_map_start(*layout), boot_gig_count(*layout, mem_end), layout.spec_offset(), C::spec_physical_levels()) ==>
            forall|k: nat, high: bool| k < boot_gig_count(*layout, mem_end) ==>
                #[trigger] gig_entry(
                    r.2.spec_start(),
                    r.2.spec_pages(),
                    boot_align(mem_end),
                    C::spec_physical_levels(),
                    boot_va(boot_map_start(*layout), k, high, layout.spec_offset()),
                ) == Some(boot_leaf(gig_addr(boot_map_start(*layout), k) as usize)),
        forall|va: usize|
            #[trigger] gig_entry(r.2.spec_start(), r.2.spec_pages(), boot_align(mem_end), C::spec_physical_levels(), va) is Some
                ==> is_boot_slot(boot_map_start(*layout), boot_gig_count(*layout, mem_end), layout.spec_offset(), C::spec_physical_levels(), va),
{
    let mut allocator = BootAllocator::new(mem_end);
    let root = setup_boot_vm::<C>(&mut allocator, mem_end, layout);
    let info = EarlyBootInfo { alloc_end: allocator.end(), dtb_paddr: dtb };
    (satp_value(mode, root), info, allocator)
}

} // verus!

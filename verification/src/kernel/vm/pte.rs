//! Generic page-table-entry operations over the architecture entry.

use vstd::prelude::*;

use crate::arch::riscv64::vm::consts::level_shift;
use crate::arch::riscv64::vm::consts::level_shift_spec;
use crate::arch::riscv64::vm::consts::PT_ENTRIES;
use crate::arch::riscv64::vm::pte::bits_leaf;
use crate::arch::riscv64::vm::pte::bits_ppn;
use crate::arch::riscv64::vm::pte::bits_valid;
use crate::arch::riscv64::vm::pte::leaf_bits;
use crate::arch::riscv64::vm::pte::lemma_new_leaf;
use crate::arch::riscv64::vm::pte::lemma_new_table;
use crate::arch::riscv64::vm::pte::table_bits;
use crate::arch::riscv64::vm::pte::PTE_FLAGS_ALL;
use crate::config::PAGE_SIZE;
use crate::mm::addr::PhysAddr;
use crate::mm::addr::VirtAddr;

pub use crate::arch::riscv64::vm::pte::PTE;

verus! {

/// Index into the table at physical level `phys_level` selected by the address `va`.
pub open spec fn va_index(va: usize, phys_level: usize) -> usize {
    (va >> (level_shift_spec(phys_level) as usize)) & 511
}

impl PTE {
    /// Whether this is a valid non-leaf entry (a pointer to a next level table).
    pub fn is_table(&self) -> (r: bool)
        ensures
            r == (bits_valid(self@) && !bits_leaf(self@)),
    {
        self.is_valid() && !self.is_leaf()
    }

    /// Physical address of the page or table this entry points to.
    pub fn pa(&self) -> (r: PhysAddr)
        requires
            bits_ppn(self@) * PAGE_SIZE <= usize::MAX,
        ensures
            r.0 == bits_ppn(self@) * PAGE_SIZE,
    {
        self.ppn().to_addr()
    }

    /// Index of the entry that maps `va` in a table at physical level `phys_level`.
    pub fn index_of(va: VirtAddr, phys_level: usize) -> (r: usize)
        requires
            level_shift_spec(phys_level) < usize::BITS,
        ensures
            r == va_index(va.0, phys_level),
            r < PT_ENTRIES,
    {
        let shift = level_shift(phys_level);
        let v = va.as_usize();
        let r = (v >> shift) & (PT_ENTRIES - 1);
        assert(r < 512) by (bit_vector)
            requires
                r == (v >> shift) & 511usize,
        ;
        r
    }
}

/// A new leaf or table entry points to the page it was made with: its address is that
/// page number times the page size, a page-aligned address.
pub proof fn lemma_pa_of_new(ppn: usize, flags: u64)
    requires
        ppn < 0x1000_0000_0000,
        flags & !PTE_FLAGS_ALL == 0,
    ensures
        bits_ppn(leaf_bits(ppn, flags)) * PAGE_SIZE == ppn * PAGE_SIZE,
        bits_ppn(table_bits(ppn)) * PAGE_SIZE == ppn * PAGE_SIZE,
        (ppn * PAGE_SIZE) % (PAGE_SIZE as int) == 0,
{
    lemma_new_leaf(ppn, flags);
    lemma_new_table(ppn);
    assert((ppn * 4096) % 4096 == 0) by (nonlinear_arith);
}

/// Addresses one entry of a level apart have consecutive indices at that level, wrapping
/// at 512.
pub proof fn lemma_index_next(va: usize, l: usize)
    requires
        usize::BITS == 64,
        l <= 3,
        va + (1usize << (level_shift_spec(l) as usize)) <= usize::MAX,
    ensures
        va_index((va + (1usize << (level_shift_spec(l) as usize))) as usize, l) == (va_index(va, l) + 1) % 512,
{
    let sh = level_shift_spec(l) as usize;
    assert(sh < 64);
    assert(usize::MAX == 0xFFFF_FFFF_FFFF_FFFF);
    let w = (va + (1usize << sh)) as usize;
    assert(usize::BITS == 64 && sh < 64 && va + (1usize << sh) <= 0xFFFF_FFFF_FFFF_FFFF && w == va + (1usize << sh)
        ==> (w >> sh) & 511 == (((va >> sh) & 511) + 1) % 512) by (bit_vector);
}

/// On a 64-bit machine every entry's address fits: its page number is below 2^44, so the
/// address, page number times the page size, is a page-aligned `usize`.
pub proof fn lemma_pa_fits(raw: u64)
    requires
        usize::BITS == 64,
    ensures
        bits_ppn(raw) < 0x1000_0000_0000,
        bits_ppn(raw) * PAGE_SIZE <= usize::MAX,
        (bits_ppn(raw) * PAGE_SIZE) % (PAGE_SIZE as int) == 0,
{
    assert((raw & 0x003F_FFFF_FFFF_FC00u64) >> 10u64 < 0x1000_0000_0000u64) by (bit_vector);
    let p = bits_ppn(raw);
    assert(p * 4096 <= 0x1000_0000_0000 * 4096) by (nonlinear_arith)
        requires
            p < 0x1000_0000_0000,
    ;
    assert((p * 4096) % 4096 == 0) by (nonlinear_arith);
}

} // verus!

//! Page table structures and configuration.

use vstd::prelude::*;

use crate::arch::riscv64::vm::consts::PT_ENTRIES;
use crate::arch::riscv64::vm::pte::bits_valid;

use super::level::PageLevel;
use super::pte::PTE;
use super::pte::va_index;
use crate::arch::riscv64::vm::consts::level_shift_spec;
use crate::config::PAGE_SIZE;
use crate::mm::addr::PhysAddr;
use crate::mm::addr::PhysPageNum;
use crate::mm::addr::VirtAddr;

verus! {

/// A page table: 512 entries.
pub struct PageTable {
    entries: [PTE; 512],
}

impl PageTable {
    /// The raw values of the entries.
    pub closed spec fn view(&self) -> Seq<u64> {
        self.entries@.map_values(|e: PTE| e@)
    }

    /// Every page table has 512 entries.
    pub proof fn lemma_len(&self)
        ensures
            self@.len() == PT_ENTRIES,
    {
    }

    /// Writing entry `i` of a table (as `get_mut` or `set` does) makes that entry read back
    /// as written and keeps every other entry; a table holding a valid entry is not empty.
    pub proof fn lemma_write(before: PageTable, after: PageTable, i: int, e: u64)
        requires
            0 <= i < PT_ENTRIES,
            after@ == before@.update(i, e),
        ensures
            after@.len() == PT_ENTRIES,
            after@[i] == e,
            forall|j: int| 0 <= j < PT_ENTRIES && j != i ==> after@[j] == before@[j],
            bits_valid(e) ==> !(forall|j: int| 0 <= j < PT_ENTRIES ==> !bits_valid(#[trigger] after@[j])),
    {
        before.lemma_len();
        if bits_valid(e) {
            assert(bits_valid(after@[i]));
        }
    }

    /// An empty page table: every entry is zero.
    pub fn empty() -> (r: Self)
        ensures
            r@.len() == PT_ENTRIES,
            forall|i: int| 0 <= i < PT_ENTRIES ==> r@[i] == 0,
    {
        PageTable { entries: [PTE::empty(); 512] }
    }

    /// The entry at `index`.
    pub fn get(&self, index: usize) -> (r: &PTE)
        requires
            index < PT_ENTRIES,
        ensures
            r@ == self@[index as int],
            self@.len() == PT_ENTRIES,
    {
        &self.entries[index]
    }

    /// Mutable access to the entry at `index`.
    pub fn get_mut(&mut self, index: usize) -> (r: &mut PTE)
        requires
            index < PT_ENTRIES,
        ensures
            r@ == old(self)@[index as int],
            old(self)@.len() == PT_ENTRIES,
            final(self)@ == old(self)@.update(index as int, final(r)@),
            final(self)@.len() == PT_ENTRIES,
    {
        &mut self.entries[index]
    }

    /// Resets every entry to zero.
    pub fn clear(&mut self)
        ensures
            final(self)@.len() == PT_ENTRIES,
            forall|i: int| 0 <= i < PT_ENTRIES ==> final(self)@[i] == 0,
    {
        let mut i: usize = 0;
        while i < PT_ENTRIES
            invariant
                i <= PT_ENTRIES,
                self@.len() == PT_ENTRIES,
                forall|j: int| 0 <= j < i ==> self@[j] == 0,
            decreases PT_ENTRIES - i,
        {
            self.set(i, PTE::empty());
            i = i + 1;
        }
    }

    /// Whether no entry is valid.
    pub fn is_empty(&self) -> (r: bool)
        ensures
            r == (forall|i: int| 0 <= i < PT_ENTRIES ==> !bits_valid(#[trigger] self@[i])),
    {
        let mut i: usize = 0;
        while i < PT_ENTRIES
            invariant
                i <= PT_ENTRIES,
                self@.len() == PT_ENTRIES,
                forall|j: int| 0 <= j < i ==> !bits_valid(#[trigger] self@[j]),
            decreases PT_ENTRIES - i,
        {
            if self.get(i).is_valid() {
                return false;
            }
            i = i + 1;
        }
        true
    }

    /// Index of the entry that maps `va` in a table at physical level `phys_level`.
    pub fn index_of(va: VirtAddr, phys_level: usize) -> (r: usize)
        requires
            level_shift_spec(phys_level) < usize::BITS,
        ensures
            r == va_index(va.0, phys_level),
            r < PT_ENTRIES,
    {
        PTE::index_of(va, phys_level)
    }

    /// Overwrites the entry at `index`.
    pub(crate) fn set(&mut self, index: usize, pte: PTE)
        requires
            index < PT_ENTRIES,
        ensures
            final(self)@ == old(self)@.update(index as int, pte@),
    {
        self.entries[index] = pte;
        assert(self@ =~= old(self)@.update(index as int, pte@));
    }
}


/// Page table configuration for a virtual address mode: how the logical levels
/// (PGD/PUD/PMD/PTE) map to the physical levels of the hardware walk.
pub trait PageTableConfig {
    /// Number of physical page table levels.
    spec fn spec_physical_levels() -> usize;

    /// Physical level of a logical level, `None` if the level is folded.
    spec fn spec_logical_to_physical(level: PageLevel) -> Option<usize>;

    /// Logical level of a physical level.
    spec fn spec_physical_to_logical(phys_level: usize) -> PageLevel;

    /// Whether a logical level is folded (skipped).
    spec fn spec_is_folded(level: PageLevel) -> bool;

    /// Number of physical page table levels.
    fn physical_levels() -> (r: usize)
        ensures
            r == Self::spec_physical_levels(),
    ;

    /// Root logical level.
    fn root_level() -> (r: PageLevel)
        ensures
            r == PageLevel::PGD,
    {
        PageLevel::PGD
    }

    /// Physical level of a logical level, `None` if the level is folded.
    fn logical_to_physical(level: PageLevel) -> (r: Option<usize>)
        ensures
            r == Self::spec_logical_to_physical(level),
    ;

    /// Logical level of a physical level below `physical_levels()`.
    fn physical_to_logical(phys_level: usize) -> (r: PageLevel)
        requires
            phys_level < Self::spec_physical_levels(),
        ensures
            r == Self::spec_physical_to_logical(phys_level),
    ;

    /// Whether a logical level is folded (skipped).
    fn is_folded(level: PageLevel) -> (r: bool)
        ensures
            r == Self::spec_is_folded(level),
    ;
}


/// Root of a page table hierarchy, named by the physical address of its root table.
pub struct PageTableRoot {
    root: PhysAddr,
}

impl PageTableRoot {
    /// Physical address of the root table.
    pub closed spec fn spec_root(&self) -> usize {
        self.root.0
    }

    /// The hierarchy whose root table is at the page-aligned address `pa`.
    pub fn from_pa(pa: PhysAddr) -> (r: Self)
        requires
            pa.0 % PAGE_SIZE == 0,
        ensures
            r.spec_root() == pa.0,
    {
        PageTableRoot { root: pa }
    }

    /// Physical address of the root table.
    pub fn root_pa(&self) -> (r: PhysAddr)
        ensures
            r.0 == self.spec_root(),
    {
        self.root
    }

    /// Physical page number of the root table.
    pub fn root_ppn(&self) -> (r: PhysPageNum)
        ensures
            r.0 == self.spec_root() / PAGE_SIZE,
    {
        self.root_pa().to_ppn()
    }
}

} // verus!

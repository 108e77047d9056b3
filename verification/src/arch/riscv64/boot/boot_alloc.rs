//! Page allocator of the boot phase: hands out consecutive zeroed pages.
//!
//! The pages it hands out hold page tables; their contents are kept here, in order, page
//! `i` being the one at physical address `start + i * PAGE_SIZE`.

use vstd::prelude::*;

use crate::arch::riscv64::vm::consts::PT_ENTRIES;
use crate::config::PAGE_SIZE;
use crate::kernel::vm::pagetable::PageTable;
use crate::kernel::vm::pte::PTE;

verus! {

/// Page index of the physical address `pa` among `n` pages starting at `start`.
pub open spec fn page_of(start: usize, n: nat, pa: int) -> Option<nat> {
    if start <= pa < start + n * PAGE_SIZE && (pa - start) % (PAGE_SIZE as int) == 0 {
        Some(((pa - start) / (PAGE_SIZE as int)) as nat)
    } else {
        None
    }
}

/// `base` rounded up to a page boundary, wrapping at the top of the address space.
pub open spec fn boot_align(base: usize) -> usize {
    base.wrapping_add((PAGE_SIZE - 1) as usize) & !((PAGE_SIZE - 1) as usize)
}

/// Bump allocator of page-table pages.
pub struct BootAllocator {
    next_free: usize,
    start: usize,
    pages: Vec<PageTable>,
}

impl BootAllocator {
    /// Address of the next page to hand out.
    pub closed spec fn spec_next_free(&self) -> usize {
        self.next_free
    }

    /// Address of the first page handed out.
    pub closed spec fn spec_start(&self) -> usize {
        self.start
    }

    /// Contents of the pages handed out, in order.
    pub closed spec fn spec_pages(&self) -> Seq<Seq<u64>> {
        self.pages@.map_values(|t: PageTable| t@)
    }

    /// The pages handed out lie back to back from `start` up to `next_free`.
    pub closed spec fn wf(&self) -> bool {
        &&& self.start % PAGE_SIZE == 0
        &&& self.next_free == self.start + self.pages@.len() * PAGE_SIZE
        &&& forall|i: int| 0 <= i < self.pages@.len() ==> (#[trigger] self.pages@[i])@.len() == PT_ENTRIES
    }

    /// What well-formedness gives: pages of 512 entries laid out from an aligned start.
    pub proof fn lemma_wf(&self)
        requires
            self.wf(),
        ensures
            self.spec_start() % PAGE_SIZE == 0,
            self.spec_next_free() == self.spec_start() + self.spec_pages().len() * PAGE_SIZE,
            forall|k: int| 0 <= k < self.spec_pages().len() ==> (#[trigger] self.spec_pages()[k]).len() == PT_ENTRIES,
    {
        assert forall|k: int| 0 <= k < self.spec_pages().len() implies (#[trigger] self.spec_pages()[k]).len() == PT_ENTRIES by {
            assert(self.pages@[k]@.len() == PT_ENTRIES);
        }
    }

    /// An allocator whose first page is `base` rounded up to a page boundary.
    pub fn new(base: usize) -> (r: Self)
        ensures
            r.spec_next_free() == boot_align(base),
            r.spec_start() == boot_align(base),
            r.spec_pages() == Seq::<Seq<u64>>::empty(),
            r.wf(),
    {
        let w = base.wrapping_add(PAGE_SIZE - 1);
        let aligned = w & !(PAGE_SIZE - 1);
        assert(aligned % 4096 == 0) by (bit_vector)
            requires
                aligned == w & !4095usize,
        ;
        let r = BootAllocator { next_free: aligned, start: aligned, pages: Vec::new() };
        assert(r.spec_pages() =~= Seq::<Seq<u64>>::empty());
        r
    }

    /// Hands out the next page, zeroed, and returns its address.
    pub fn alloc_page(&mut self) -> (r: usize)
        requires
            old(self).wf(),
            old(self).spec_next_free() + PAGE_SIZE <= usize::MAX,
        ensures
            r == old(self).spec_next_free(),
            final(self).wf(),
            final(self).spec_next_free() == old(self).spec_next_free() + PAGE_SIZE,
            final(self).spec_start() == old(self).spec_start(),
            final(self).spec_pages() == old(self).spec_pages().push(Seq::new(PT_ENTRIES as nat, |i: int| 0u64)),
    {
        let paddr = self.next_free;
        self.next_free = self.next_free.wrapping_add(PAGE_SIZE);
        let page = PageTable::empty();
        self.pages.push(page);
        proof {
            assert(page@ =~= Seq::new(PT_ENTRIES as nat, |i: int| 0u64));
            assert(self.spec_pages() =~= old(self).spec_pages().push(Seq::new(PT_ENTRIES as nat, |i: int| 0u64)));
        }
        paddr
    }

    /// Raw value of entry `idx` of the page table at `pa`.
    pub fn read_entry(&self, pa: usize, idx: usize) -> (r: u64)
        requires
            self.wf(),
            page_of(self.spec_start(), self.spec_pages().len(), pa as int) is Some,
            idx < PT_ENTRIES,
        ensures
            r == self.spec_pages()[page_of(self.spec_start(), self.spec_pages().len(), pa as int).unwrap() as int][idx as int],
    {
        let i = (pa - self.start) / PAGE_SIZE;
        self.pages[i].get(idx).raw()
    }

    /// Overwrites entry `idx` of the page table at `pa`.
    pub fn write_entry(&mut self, pa: usize, idx: usize, pte: PTE)
        requires
            old(self).wf(),
            page_of(old(self).spec_start(), old(self).spec_pages().len(), pa as int) is Some,
            idx < PT_ENTRIES,
        ensures
            final(self).wf(),
            final(self).spec_next_free() == old(self).spec_next_free(),
            final(self).spec_start() == old(self).spec_start(),
            ({
                let i = page_of(old(self).spec_start(), old(self).spec_pages().len(), pa as int).unwrap() as int;
                final(self).spec_pages() == old(self).spec_pages().update(i, old(self).spec_pages()[i].update(idx as int, pte@))
            }),
    {
        let i = (pa - self.start) / PAGE_SIZE;
        self.pages[i].set(idx, pte);
        proof {
            let ii = page_of(old(self).spec_start(), old(self).spec_pages().len(), pa as int).unwrap() as int;
            assert(ii == i);
            assert(self.spec_pages() =~= old(self).spec_pages().update(ii, old(self).spec_pages()[ii].update(idx as int, pte@)));
        }
    }

    /// Address of the first page handed out.
    pub fn start(&self) -> (r: usize)
        ensures
            r == self.spec_start(),
    {
        self.start
    }

    /// Address of the next page to hand out: everything below it is in use.
    pub fn end(&mut self) -> (r: usize)
        ensures
            r == old(self).spec_next_free(),
            *final(self) == *old(self),
    {
        self.next_free
    }
}

} // verus!

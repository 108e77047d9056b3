//! The boot page table: identity and linear mappings of physical memory in 1 GiB pages.

use vstd::prelude::*;

use super::boot_alloc::BootAllocator;
use super::boot_alloc::page_of;
use super::linker::LinkerLayout;
use crate::arch::riscv64::vm::consts::level_shift_spec;
use crate::arch::riscv64::vm::consts::PT_ENTRIES;
use crate::arch::riscv64::vm::pte::PTEFlags;
use crate::arch::riscv64::vm::pte::bits_leaf;
use crate::arch::riscv64::vm::pte::bits_ppn;
use crate::arch::riscv64::vm::pte::bits_valid;
use crate::arch::riscv64::vm::pte::leaf_bits;
use crate::arch::riscv64::vm::pte::lemma_new_table;
use crate::arch::riscv64::vm::pte::table_bits;
use crate::config::PAGE_SIZE;
use crate::kernel::vm::pagetable::PageTableConfig;
use crate::kernel::vm::pte::PTE;
use crate::kernel::vm::pte::va_index;
use crate::mm::addr::PhysAddr;
use crate::mm::addr::VirtAddr;
use crate::mm::addr::align_down_spec;
use crate::mm::addr::align_up_spec;

verus! {

/// Physical level of the tables whose entries map 1 GiB pages.
pub const GIGAPAGE_PHYS_LEVEL: usize = 2;

/// One gibibyte.
pub const GIGABYTE: usize = 0x4000_0000;

/// Highest physical address (exclusive) whose page number fits the 44-bit PPN field.
pub open spec fn ppn_addr_limit() -> int {
    0x0100_0000_0000_0000
}

/// Page index of the table that root entry `i` points to, if the entry is a valid table
/// entry (valid and not a leaf).
pub open spec fn child(start: usize, pages: Seq<Seq<u64>>, r: nat, i: int) -> Option<nat> {
    let e = pages[r as int][i];
    if bits_valid(e) && !bits_leaf(e) {
        page_of(start, pages.len(), bits_ppn(e) * PAGE_SIZE)
    } else {
        None
    }
}

/// The root table is a page of the allocator; with four levels, each valid root entry
/// points to its own table, distinct from the root and from the other entries' tables.
pub open spec fn root_wf(start: usize, pages: Seq<Seq<u64>>, root: usize, levels: usize) -> bool {
    &&& page_of(start, pages.len(), root as int) is Some
    &&& levels == 4 ==> {
        let r = page_of(start, pages.len(), root as int).unwrap();
        forall|i: int| 0 <= i < PT_ENTRIES ==> {
            &&& bits_valid(pages[r as int][i]) ==> #[trigger] child(start, pages, r, i) is Some
            &&& child(start, pages, r, i) != Some(r)
            &&& forall|j: int| 0 <= j < PT_ENTRIES && j != i && child(start, pages, r, i) is Some
                ==> child(start, pages, r, i) != #[trigger] child(start, pages, r, j)
        }
    }
}

/// The valid 1 GiB-level entry reached for `va` by walking from the root table.
pub open spec fn gig_entry(start: usize, pages: Seq<Seq<u64>>, root: usize, levels: usize, va: usize) -> Option<u64> {
    match page_of(start, pages.len(), root as int) {
        None => None,
        Some(r) => {
            let table = if levels == 4 {
                child(start, pages, r, va_index(va, 3) as int)
            } else {
                Some(r)
            };
            match table {
                None => None,
                Some(t) => {
                    let e = pages[t as int][va_index(va, 2) as int];
                    if bits_valid(e) {
                        Some(e)
                    } else {
                        None
                    }
                },
            }
        },
    }
}

/// Page index of the root table.
pub open spec fn root_page(start: usize, pages: Seq<Seq<u64>>, root: usize) -> nat {
    page_of(start, pages.len(), root as int).unwrap()
}

/// Whether mapping `virt` needs a new 1 GiB-level table: with four levels, when its root
/// entry is not valid.
pub open spec fn needs_table(start: usize, pages: Seq<Seq<u64>>, root: usize, levels: usize, virt: usize) -> bool {
    levels == 4 && !bits_valid(pages[root_page(start, pages, root) as int][va_index(virt, 3) as int])
}

/// Page index of the table that holds the 1 GiB entry of `virt` once `map_1gb_entry` has
/// run: the root with three levels, else the table its root entry points to, or the page
/// allocated next when that entry is not valid.
pub open spec fn gig_table(start: usize, pages: Seq<Seq<u64>>, root: usize, levels: usize, virt: usize) -> nat {
    if levels == 3 {
        root_page(start, pages, root)
    } else if needs_table(start, pages, root, levels, virt) {
        pages.len()
    } else {
        child(start, pages, root_page(start, pages, root), va_index(virt, 3) as int).unwrap()
    }
}

/// The slot of the 1 GiB-level entry that maps `va`: the pair of table indices walked.
pub open spec fn gig_slot(va: usize, levels: usize) -> int {
    if levels == 4 {
        va_index(va, 3) * 512 + va_index(va, 2)
    } else {
        va_index(va, 2) as int
    }
}

/// The entry a 1 GiB boot mapping of `phys` writes.
pub open spec fn boot_leaf(phys: usize) -> u64 {
    leaf_bits(phys / PAGE_SIZE, PTEFlags::BOOT)
}

proof fn lemma_leaf_valid(ppn: usize, flags: u64)
    ensures
        bits_valid(leaf_bits(ppn, flags)),
{
    let p = ppn as u64;
    assert(((p << 10u64) | flags | 1u64) & 1u64 != 0) by (bit_vector);
}

proof fn lemma_page_of_grow(start: usize, n: nat, m: nat, pa: int)
    requires
        n <= m,
        page_of(start, n, pa) is Some,
    ensures
        page_of(start, m, pa) == page_of(start, n, pa),
{
}

proof fn lemma_page_of_alloc(start: usize, n: nat, pa: int)
    requires
        pa == start + n * PAGE_SIZE,
        start % PAGE_SIZE == 0,
    ensures
        page_of(start, n + 1, pa) == Some(n),
        pa % (PAGE_SIZE as int) == 0,
{
    assert((n * PAGE_SIZE) % (PAGE_SIZE as int) == 0) by (nonlinear_arith);
    assert((pa - start) / (PAGE_SIZE as int) == n) by (nonlinear_arith)
        requires
            pa - start == n * PAGE_SIZE,
    ;
    assert(pa % (PAGE_SIZE as int) == 0) by (nonlinear_arith)
        requires
            pa == start + n * PAGE_SIZE,
            start as int % (PAGE_SIZE as int) == 0,
    ;
}


proof fn lemma_va_index_bound(va: usize, l: usize)
    ensures
        va_index(va, l) < 512,
{
    let sh = level_shift_spec(l) as usize;
    assert((va >> sh) & 511usize < 512usize) by (bit_vector);
}

/// The 1 GiB slots of two addresses differ exactly when one of the walked indices differs.
proof fn lemma_slot_distinct(va: usize, vb: usize, levels: usize)
    requires
        levels == 3 || levels == 4,
    ensures
        gig_slot(va, levels) == gig_slot(vb, levels) <==> (va_index(va, 2) == va_index(vb, 2)
            && (levels == 4 ==> va_index(va, 3) == va_index(vb, 3))),
{
    lemma_va_index_bound(va, 2);
    lemma_va_index_bound(va, 3);
    lemma_va_index_bound(vb, 2);
    lemma_va_index_bound(vb, 3);
}

/// Allocating a zeroed table and pointing an invalid root entry at it changes no mapping.
proof fn lemma_alloc_table(
    start: usize,
    p0: Seq<Seq<u64>>,
    root: usize,
    i3: int,
    raw: u64,
)
    requires
        start % PAGE_SIZE == 0,
        root_wf(start, p0, root, 4),
        forall|k: int| 0 <= k < p0.len() ==> (#[trigger] p0[k]).len() == PT_ENTRIES,
        0 <= i3 < PT_ENTRIES,
        !bits_valid(p0[page_of(start, p0.len(), root as int).unwrap() as int][i3]),
        bits_valid(raw),
        !bits_leaf(raw),
        bits_ppn(raw) * PAGE_SIZE == start + p0.len() * PAGE_SIZE,
    ensures
        ({
            let r = page_of(start, p0.len(), root as int).unwrap();
            let p1 = p0.push(Seq::new(PT_ENTRIES as nat, |i: int| 0u64)).update(r as int, p0[r as int].update(i3, raw));
            &&& root_wf(start, p1, root, 4)
            &&& page_of(start, p1.len(), root as int) == Some(r)
            &&& child(start, p1, r, i3) == Some(p0.len())
            &&& forall|k: int| 0 <= k < p1.len() ==> (#[trigger] p1[k]).len() == PT_ENTRIES
            &&& forall|va: usize| #[trigger] gig_entry(start, p1, root, 4, va) == gig_entry(start, p0, root, 4, va)
        }),
{
    let r = page_of(start, p0.len(), root as int).unwrap();
    let n = p0.len();
    let p1 = p0.push(Seq::new(PT_ENTRIES as nat, |i: int| 0u64)).update(r as int, p0[r as int].update(i3, raw));
    lemma_page_of_grow(start, n, n + 1, root as int);
    lemma_page_of_alloc(start, n, start + n * PAGE_SIZE);
    assert(child(start, p1, r, i3) == Some(n));
    assert forall|i: int| 0 <= i < PT_ENTRIES && i != i3 implies #[trigger] child(start, p1, r, i) == child(start, p0, r, i) by {
        assert(p1[r as int][i] == p0[r as int][i]);
        let e = p0[r as int][i];
        if bits_valid(e) {
            lemma_page_of_grow(start, n, n + 1, bits_ppn(e) * PAGE_SIZE);
        }
    }
    assert forall|i: int| 0 <= i < PT_ENTRIES implies {
        &&& bits_valid(p1[r as int][i]) ==> #[trigger] child(start, p1, r, i) is Some
        &&& child(start, p1, r, i) != Some(r)
        &&& forall|j: int| 0 <= j < PT_ENTRIES && j != i && child(start, p1, r, i) is Some
            ==> child(start, p1, r, i) != #[trigger] child(start, p1, r, j)
    } by {
        if i != i3 {
            assert(child(start, p1, r, i) == child(start, p0, r, i));
        }
        assert forall|j: int| 0 <= j < PT_ENTRIES && j != i && child(start, p1, r, i) is Some
            implies child(start, p1, r, i) != #[trigger] child(start, p1, r, j) by {
            if j != i3 {
                assert(child(start, p1, r, j) == child(start, p0, r, j));
            }
            if i != i3 {
                assert(child(start, p1, r, i) == child(start, p0, r, i));
            }
        }
    }
    assert forall|va: usize| #[trigger] gig_entry(start, p1, root, 4, va) == gig_entry(start, p0, root, 4, va) by {
        let k3 = va_index(va, 3) as int;
        let k2 = va_index(va, 2) as int;
        lemma_va_index_bound(va, 3);
        lemma_va_index_bound(va, 2);
        if k3 == i3 {
            assert(child(start, p0, r, k3) is None);
            assert(p1[n as int][k2] == 0u64);
            assert(!bits_valid(0u64)) by (bit_vector);
        } else {
            assert(child(start, p1, r, k3) == child(start, p0, r, k3));
            if let Some(t) = child(start, p0, r, k3) {
                assert(t != r);
                assert(t < n);
                assert(p1[t as int] == p0[t as int]);
            }
        }
    }
}

/// Writing the 1 GiB entry of `virt` into its table sets the mapping of `virt` and keeps
/// every mapping of another slot.
proof fn lemma_write_leaf(
    start: usize,
    p1: Seq<Seq<u64>>,
    root: usize,
    levels: usize,
    t: nat,
    virt: usize,
    leaf: u64,
)
    requires
        levels == 3 || levels == 4,
        root_wf(start, p1, root, levels),
        forall|k: int| 0 <= k < p1.len() ==> (#[trigger] p1[k]).len() == PT_ENTRIES,
        t < p1.len(),
        levels == 3 ==> page_of(start, p1.len(), root as int) == Some(t),
        levels == 4 ==> child(start, p1, page_of(start, p1.len(), root as int).unwrap(), va_index(virt, 3) as int) == Some(t),
        bits_valid(leaf),
    ensures
        ({
            let i2 = va_index(virt, 2) as int;
            let p2 = p1.update(t as int, p1[t as int].update(i2, leaf));
            &&& root_wf(start, p2, root, levels)
            &&& forall|k: int| 0 <= k < p2.len() ==> (#[trigger] p2[k]).len() == PT_ENTRIES
            &&& gig_entry(start, p2, root, levels, virt) == Some(leaf)
            &&& forall|va: usize| gig_slot(va, levels) != gig_slot(virt, levels) ==>
                #[trigger] gig_entry(start, p2, root, levels, va) == gig_entry(start, p1, root, levels, va)
        }),
{
    let i2 = va_index(virt, 2) as int;
    lemma_va_index_bound(virt, 2);
    lemma_va_index_bound(virt, 3);
    let p2 = p1.update(t as int, p1[t as int].update(i2, leaf));
    let r = page_of(start, p1.len(), root as int).unwrap();
    assert forall|k: int| 0 <= k < p2.len() implies (#[trigger] p2[k]).len() == PT_ENTRIES by {
    }
    if levels == 4 {
        assert(t != r);
        assert(p2[r as int] == p1[r as int]);
        assert forall|i: int| 0 <= i < PT_ENTRIES implies #[trigger] child(start, p2, r, i) == child(start, p1, r, i) by {
        }
        assert forall|i: int| 0 <= i < PT_ENTRIES implies {
            &&& bits_valid(p2[r as int][i]) ==> #[trigger] child(start, p2, r, i) is Some
            &&& child(start, p2, r, i) != Some(r)
            &&& forall|j: int| 0 <= j < PT_ENTRIES && j != i && child(start, p2, r, i) is Some
                ==> child(start, p2, r, i) != #[trigger] child(start, p2, r, j)
        } by {
            assert(child(start, p2, r, i) == child(start, p1, r, i));
            assert forall|j: int| 0 <= j < PT_ENTRIES && j != i && child(start, p2, r, i) is Some
                implies child(start, p2, r, i) != #[trigger] child(start, p2, r, j) by {
                assert(child(start, p2, r, j) == child(start, p1, r, j));
            }
        }
    }
    assert forall|va: usize| gig_slot(va, levels) != gig_slot(virt, levels) implies
        #[trigger] gig_entry(start, p2, root, levels, va) == gig_entry(start, p1, root, levels, va) by {
        lemma_slot_distinct(va, virt, levels);
        lemma_va_index_bound(va, 3);
        lemma_va_index_bound(va, 2);
        if levels == 4 {
            let k3 = va_index(va, 3) as int;
            assert(child(start, p2, r, k3) == child(start, p1, r, k3));
            if let Some(u) = child(start, p1, r, k3) {
                if u == t {
                    assert(k3 == va_index(virt, 3) as int);
                    assert(va_index(va, 2) != va_index(virt, 2));
                } else {
                    assert(p2[u as int] == p1[u as int]);
                }
            }
        } else {
            assert(va_index(va, 2) != va_index(virt, 2));
        }
    }
}

/// Maps the 1 GiB page at `virt` to `phys` with the boot flags, in the page table rooted
/// at `root`. With four levels, the root entry is followed to its 1 GiB-level table, and
/// a new zeroed table is allocated when the entry is not valid. Every other 1 GiB slot
/// keeps its mapping.
pub fn map_1gb_entry<C: PageTableConfig>(
    allocator: &mut BootAllocator,
    root: usize,
    virt: VirtAddr,
    phys: PhysAddr,
)
    requires
        C::spec_physical_levels() == 3 || C::spec_physical_levels() == 4,
        level_shift_spec((C::spec_physical_levels() - 1) as usize) < usize::BITS,
        old(allocator).wf(),
        root_wf(old(allocator).spec_start(), old(allocator).spec_pages(), root, C::spec_physical_levels()),
        old(allocator).spec_next_free() + PAGE_SIZE <= ppn_addr_limit(),
        old(allocator).spec_next_free() + PAGE_SIZE <= usize::MAX,
    ensures
        final(allocator).wf(),
        final(allocator).spec_start() == old(allocator).spec_start(),
        final(allocator).spec_next_free() == old(allocator).spec_next_free()
            || final(allocator).spec_next_free() == old(allocator).spec_next_free() + PAGE_SIZE,
        ({
            let p0 = old(allocator).spec_pages();
            let p = final(allocator).spec_pages();
            let start = old(allocator).spec_start();
            let levels = C::spec_physical_levels();
            let r = root_page(start, p0, root) as int;
            let k3 = va_index(virt.0, 3) as int;
            let k2 = va_index(virt.0, 2) as int;
            let alloc = needs_table(start, p0, root, levels, virt.0);
            let t = gig_table(start, p0, root, levels, virt.0) as int;
            &&& final(allocator).spec_next_free() == old(allocator).spec_next_free() + if alloc { PAGE_SIZE } else { 0 }
            &&& p.len() == p0.len() + if alloc { 1nat } else { 0nat }
            &&& alloc ==> p[r][k3] == table_bits((old(allocator).spec_next_free() / PAGE_SIZE) as usize)
            &&& p[t][k2] == boot_leaf(phys.0)
            &&& forall|q: int, j: int|
                0 <= q < p.len() && 0 <= j < PT_ENTRIES && !(q == t && j == k2) && !(alloc && q == r && j == k3)
                    ==> #[trigger] p[q][j] == if q < p0.len() { p0[q][j] } else { 0u64 }
        }),
        root_wf(final(allocator).spec_start(), final(allocator).spec_pages(), root, C::spec_physical_levels()),
        gig_entry(final(allocator).spec_start(), final(allocator).spec_pages(), root, C::spec_physical_levels(), virt.0)
            == Some(boot_leaf(phys.0)),
        forall|va: usize|
            gig_slot(va, C::spec_physical_levels()) != gig_slot(virt.0, C::spec_physical_levels()) ==>
            #[trigger] gig_entry(final(allocator).spec_start(), final(allocator).spec_pages(), root, C::spec_physical_levels(), va)
                == gig_entry(old(allocator).spec_start(), old(allocator).spec_pages(), root, C::spec_physical_levels(), va),
{
    let levels = C::physical_levels();
    let ghost start = old(allocator).spec_start();
    let ghost pages0 = old(allocator).spec_pages();
    let ghost r = page_of(start, pages0.len(), root as int).unwrap();
    proof {
        lemma_va_index_bound(virt.0, 3);
        lemma_va_index_bound(virt.0, 2);
        allocator.lemma_wf();
    }
    let gigapage_table: usize = if levels == 3 {
        root
    } else {
        let pgd_idx = PTE::index_of(virt, levels - 1);
        let pgd_entry = PTE::from_raw(allocator.read_entry(root, pgd_idx));
        if pgd_entry.is_valid() {
            assert(child(start, pages0, r, pgd_idx as int) is Some);
            assert(bits_ppn(pgd_entry@) * PAGE_SIZE < start + pages0.len() * PAGE_SIZE);
            pgd_entry.pa().as_usize()
        } else {
            let new_table = allocator.alloc_page();
            proof {
                lemma_page_of_alloc(start, pages0.len(), new_table as int);
                lemma_page_of_grow(start, pages0.len(), pages0.len() + 1, root as int);
            }
            let ppn = PhysAddr::new(new_table).to_ppn();
            proof {
                lemma_new_table(ppn.0);
                assert(ppn.0 * PAGE_SIZE == new_table) by (nonlinear_arith)
                    requires
                        ppn.0 == new_table / 4096,
                        new_table % 4096 == 0,
                ;
                lemma_alloc_table(start, pages0, root, pgd_idx as int, table_bits(ppn.0));
            }
            allocator.write_entry(root, pgd_idx, PTE::new_table(ppn));
            new_table
        }
    };
    let ghost pages1 = allocator.spec_pages();
    proof {
        allocator.lemma_wf();
    }
    let ghost t = page_of(start, pages1.len(), gigapage_table as int).unwrap();
    let entry_idx = PTE::index_of(virt, GIGAPAGE_PHYS_LEVEL);
    let leaf = PTE::new_leaf(phys.to_ppn(), PTEFlags::from_bits_truncate(PTEFlags::BOOT));
    proof {
        lemma_leaf_valid(phys.0 / PAGE_SIZE, PTEFlags::BOOT);
        assert(PTEFlags::BOOT & 0xFF == PTEFlags::BOOT) by (bit_vector);
        lemma_write_leaf(start, pages1, root, levels, t, virt.0, leaf@);
    }
    allocator.write_entry(gigapage_table, entry_idx, leaf);
}


/// Addresses with the same 1 GiB slot reach the same entry.
proof fn lemma_same_slot_same_entry(start: usize, pages: Seq<Seq<u64>>, root: usize, levels: usize, va: usize, vb: usize)
    requires
        levels == 3 || levels == 4,
        gig_slot(va, levels) == gig_slot(vb, levels),
    ensures
        gig_entry(start, pages, root, levels, va) == gig_entry(start, pages, root, levels, vb),
{
    lemma_slot_distinct(va, vb, levels);
}

/// Physical address of the `k`-th gibibyte mapped at boot.
pub open spec fn gig_addr(map_start: usize, k: nat) -> int {
    map_start + k * GIGABYTE
}

/// Virtual address of the `k`-th boot mapping: identical to the physical address, or
/// shifted by the kernel offset for the linear mapping.
pub open spec fn boot_va(map_start: usize, k: nat, high: bool, offset: int) -> usize {
    (if high {
        gig_addr(map_start, k) + offset
    } else {
        gig_addr(map_start, k)
    }) as usize
}

/// First physical address the boot page table maps.
pub open spec fn boot_map_start(layout: LinkerLayout) -> usize {
    align_down_spec(layout.physical_base as int, GIGABYTE as int) as usize
}

/// End (exclusive) of the physical range the boot page table maps.
pub open spec fn boot_map_end(mem_end: usize) -> int {
    align_up_spec(mem_end as int, GIGABYTE as int)
}

/// Number of gibibytes the boot page table maps.
pub open spec fn boot_gig_count(layout: LinkerLayout, mem_end: usize) -> nat {
    if boot_map_end(mem_end) > boot_map_start(layout) {
        ((boot_map_end(mem_end) - boot_map_start(layout)) / (GIGABYTE as int)) as nat
    } else {
        0
    }
}

/// No two boot mappings of different gibibytes share a 1 GiB slot.
pub open spec fn boot_slots_distinct(map_start: usize, count: nat, offset: int, levels: usize) -> bool {
    forall|k1: nat, k2: nat, h1: bool, h2: bool|
        k1 < count && k2 < count && #[trigger] gig_slot(boot_va(map_start, k1, h1, offset), levels)
            == #[trigger] gig_slot(boot_va(map_start, k2, h2, offset), levels) ==> k1 == k2
}

/// Whether `va` falls in the 1 GiB slot of one of the first `count` boot mappings.
pub open spec fn is_boot_slot(map_start: usize, count: nat, offset: int, levels: usize, va: usize) -> bool {
    exists|j: nat, h: bool| j < count && #[trigger] gig_slot(boot_va(map_start, j, h, offset), levels) == gig_slot(va, levels)
}

/// Builds the boot page table: allocates a zeroed root table, then maps each gibibyte
/// from the start of physical memory (rounded down to 1 GiB) up to `mem_end` (rounded up
/// to 1 GiB) twice, at its own address and at its linear kernel address. Returns the
/// address of the root table.
///
/// When no two mappings of different gibibytes fall in the same 1 GiB slot, each of them
/// ends up mapped to its gibibyte with the boot flags. Nothing outside the slots of those
/// mappings is mapped, and valid root entries always point to tables.
pub fn setup_boot_vm<C: PageTableConfig>(
    allocator: &mut BootAllocator,
    mem_end: usize,
    layout: &LinkerLayout,
) -> (root: usize)
    requires
        C::spec_physical_levels() == 3 || C::spec_physical_levels() == 4,
        level_shift_spec((C::spec_physical_levels() - 1) as usize) < usize::BITS,
        old(allocator).wf(),
        layout.wf(),
        boot_map_end(mem_end) + layout.spec_offset() <= usize::MAX,
        old(allocator).spec_next_free() + PAGE_SIZE * (2 * boot_gig_count(*layout, mem_end) + 2) <= ppn_addr_limit(),
        old(allocator).spec_next_free() + PAGE_SIZE * (2 * boot_gig_count(*layout, mem_end) + 2) <= usize::MAX,
    ensures
        root == old(allocator).spec_next_free(),
        final(allocator).wf(),
        final(allocator).spec_start() == old(allocator).spec_start(),
        root_wf(final(allocator).spec_start(), final(allocator).spec_pages(), root, C::spec_physical_levels()),
        boot_slots_distinct(boot_map_start(*layout), boot_gig_count(*layout, mem_end), layout.spec_offset(), C::spec_physical_levels()) ==>
            forall|k: nat, high: bool| k < boot_gig_count(*layout, mem_end) ==>
                #[trigger] gig_entry(
                    final(allocator).spec_start(),
                    final(allocator).spec_pages(),
                    root,
                    C::spec_physical_levels(),
                    boot_va(boot_map_start(*layout), k, high, layout.spec_offset()),
                ) == Some(boot_leaf(gig_addr(boot_map_start(*layout), k) as usize)),
        forall|va: usize|
            #[trigger] gig_entry(final(allocator).spec_start(), final(allocator).spec_pages(), root, C::spec_physical_levels(), va) is Some
                ==> is_boot_slot(boot_map_start(*layout), boot_gig_count(*layout, mem_end), layout.spec_offset(), C::spec_physical_levels(), va),
{
    let ghost levels = C::spec_physical_levels();
    let ghost start = old(allocator).spec_start();
    let ghost offset = layout.spec_offset();
    let ghost count = boot_gig_count(*layout, mem_end);
    let ghost nf0 = old(allocator).spec_next_free();
    proof {
        allocator.lemma_wf();
    }
    let root_table = allocator.alloc_page();
    proof {
        allocator.lemma_wf();
        lemma_page_of_alloc(start, old(allocator).spec_pages().len(), root_table as int);
        let pages = allocator.spec_pages();
        let r = old(allocator).spec_pages().len();
        assert forall|i: int| 0 <= i < PT_ENTRIES implies !bits_valid(pages[r as int][i]) by {
            assert(pages[r as int][i] == 0u64);
            assert(!bits_valid(0u64)) by (bit_vector);
        }
        assert forall|i: int| 0 <= i < PT_ENTRIES implies #[trigger] child(start, pages, r, i) is None by {
            assert(!bits_valid(pages[r as int][i]));
        }
        assert forall|va: usize| #[trigger] gig_entry(start, pages, root_table, levels, va) is None by {
            lemma_va_index_bound(va, 3);
            lemma_va_index_bound(va, 2);
            assert(page_of(start, pages.len(), root_table as int) == Some(r));
            if levels == 3 {
                assert(!bits_valid(pages[r as int][va_index(va, 2) as int]));
            } else {
                assert(child(start, pages, r, va_index(va, 3) as int) is None);
            }
        }
    }
    let map_start = PhysAddr::new(layout.phy_base()).align_down(GIGABYTE).as_usize();
    let vmap_end = PhysAddr::new(mem_end).align_up(GIGABYTE).as_usize();
    proof {
        crate::mm::addr::lemma_align_facts(layout.physical_base as int, GIGABYTE as int);
        crate::mm::addr::lemma_align_facts(mem_end as int, GIGABYTE as int);
        assert(map_start == boot_map_start(*layout));
        assert(map_start % GIGABYTE == 0);
        assert(vmap_end % GIGABYTE == 0);
        if vmap_end > map_start {
            assert((vmap_end - map_start) % (GIGABYTE as int) == 0) by (nonlinear_arith)
                requires
                    vmap_end % GIGABYTE == 0,
                    map_start % GIGABYTE == 0,
                    vmap_end > map_start,
            {
                vstd::arithmetic::div_mod::lemma_sub_mod_noop(vmap_end as int, map_start as int, GIGABYTE as int);
            }
            assert(count * GIGABYTE == vmap_end - map_start) by (nonlinear_arith)
                requires
                    count == (vmap_end - map_start) / (GIGABYTE as int),
                    (vmap_end - map_start) % (GIGABYTE as int) == 0,
            {
                vstd::arithmetic::div_mod::lemma_fundamental_div_mod((vmap_end - map_start) as int, GIGABYTE as int);
            }
        }
    }
    let ghost dist = boot_slots_distinct(map_start, count, offset, levels);
    let mut curr = map_start;
    let ghost mut k: nat = 0;
    while curr < vmap_end
        invariant
            C::spec_physical_levels() == levels,
            levels == 3 || levels == 4,
            level_shift_spec((levels - 1) as usize) < usize::BITS,
            layout.wf(),
            offset == layout.spec_offset(),
            vmap_end + offset <= usize::MAX,
            map_start == boot_map_start(*layout),
            curr == gig_addr(map_start, k),
            k <= count,
            vmap_end > map_start ==> curr <= vmap_end && count * GIGABYTE == vmap_end - map_start,
            vmap_end <= map_start ==> count == 0,
            curr % GIGABYTE == 0,
            vmap_end % GIGABYTE == 0,
            allocator.wf(),
            allocator.spec_start() == start,
            allocator.spec_next_free() <= nf0 + PAGE_SIZE + 2 * k * PAGE_SIZE,
            nf0 + PAGE_SIZE * (2 * count + 2) <= ppn_addr_limit(),
            nf0 + PAGE_SIZE * (2 * count + 2) <= usize::MAX,
            root_table == nf0,
            root_wf(start, allocator.spec_pages(), root_table, levels),
            dist == boot_slots_distinct(map_start, count, offset, levels),
            forall|va: usize| #[trigger] gig_entry(start, allocator.spec_pages(), root_table, levels, va) is Some
                ==> is_boot_slot(map_start, k, offset, levels, va),
            dist ==> forall|j: nat, h: bool| j < k ==>
                #[trigger] gig_entry(start, allocator.spec_pages(), root_table, levels, boot_va(map_start, j, h, offset))
                    == Some(boot_leaf(gig_addr(map_start, j) as usize)),
        decreases vmap_end - curr,
    {
        assert(k < count) by (nonlinear_arith)
            requires
                curr == map_start + k * GIGABYTE,
                curr < vmap_end,
                count * GIGABYTE == vmap_end - map_start,
        ;
        let cur_virt = layout.p2v_linear(curr);
        let ghost pages_a = allocator.spec_pages();
        map_1gb_entry::<C>(allocator, root_table, VirtAddr::new(curr), PhysAddr::new(curr));
        let ghost pages_b = allocator.spec_pages();
        map_1gb_entry::<C>(allocator, root_table, VirtAddr::new(cur_virt), PhysAddr::new(curr));
        let ghost pages_c = allocator.spec_pages();
        proof {
            let ident = boot_va(map_start, k, false, offset);
            let high = boot_va(map_start, k, true, offset);
            assert(ident == curr);
            assert(high == cur_virt);
            assert forall|va: usize| #[trigger] gig_entry(start, pages_c, root_table, levels, va) is Some
                implies is_boot_slot(map_start, k + 1, offset, levels, va) by {
                if gig_slot(va, levels) == gig_slot(ident, levels) {
                    assert(gig_slot(boot_va(map_start, k, false, offset), levels) == gig_slot(va, levels));
                } else if gig_slot(va, levels) == gig_slot(high, levels) {
                    assert(gig_slot(boot_va(map_start, k, true, offset), levels) == gig_slot(va, levels));
                } else {
                    assert(gig_entry(start, pages_b, root_table, levels, va) == gig_entry(start, pages_a, root_table, levels, va));
                    assert(is_boot_slot(map_start, k, offset, levels, va));
                    let (j, h) = choose|j: nat, h: bool| j < k && #[trigger] gig_slot(boot_va(map_start, j, h, offset), levels) == gig_slot(va, levels);
                    assert(gig_slot(boot_va(map_start, j, h, offset), levels) == gig_slot(va, levels));
                }
            }
            if dist {
                assert forall|j: nat, h: bool| j < k + 1 implies
                    #[trigger] gig_entry(start, pages_c, root_table, levels, boot_va(map_start, j, h, offset))
                        == Some(boot_leaf(gig_addr(map_start, j) as usize)) by {
                    let v = boot_va(map_start, j, h, offset);
                    if j < k {
                        assert(gig_slot(v, levels) != gig_slot(ident, levels));
                        assert(gig_slot(v, levels) != gig_slot(high, levels));
                    } else {
                        if !h {
                            if gig_slot(high, levels) == gig_slot(ident, levels) {
                                lemma_same_slot_same_entry(start, pages_c, root_table, levels, ident, high);
                            }
                        }
                    }
                }
            }
        }
        curr = curr + GIGABYTE;
        proof {
            k = k + 1;
        }
    }
    proof {
        if vmap_end > map_start {
            assert(k == count) by (nonlinear_arith)
                requires
                    map_start + k * GIGABYTE == vmap_end,
                    count * GIGABYTE == vmap_end - map_start,
            ;
        }
        assert(k == count);
        assert forall|va: usize| #[trigger] gig_entry(start, allocator.spec_pages(), root_table, levels, va) is Some
            implies is_boot_slot(map_start, count, offset, levels, va) by {
            assert(is_boot_slot(map_start, k, offset, levels, va));
        }
    }
    root_table
}

} // verus!

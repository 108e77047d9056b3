//! Arithmetic of early memory setup.

use vstd::prelude::*;
use vstd::arithmetic::power2::pow2;

use crate::arch::riscv64::boot::linker::LinkerLayout;
use crate::config::PAGE_SIZE;
use crate::libs::dtb::DtbMemKind;
use crate::libs::dtb::DtbMemRegion;
use crate::mm::addr::align_up_spec;

verus! {

/// Whether `k` is the least exponent with `2^k >= n`.
pub open spec fn is_ceil_log2(n: nat, k: nat) -> bool {
    &&& pow2(k) >= n
    &&& (k == 0 || pow2((k - 1) as nat) < n)
}

/// The least `k` with `2^k >= n` (0 for `n <= 1`).
pub fn ceil_log2(n: usize) -> (r: usize)
    ensures
        is_ceil_log2(n as nat, r as nat),
{
    proof {
        vstd::arithmetic::power2::lemma2_to64();
    }
    if n <= 1 {
        return 0;
    }
    let mut k: usize = 0;
    let mut p: usize = 1;
    while p < n
        invariant
            p == pow2(k as nat),
            k <= p,
            p >= 1,
            k == 0 || pow2((k - 1) as nat) < n,
            n > 1,
        decreases usize::MAX - p,
    {
        proof {
            vstd::arithmetic::power2::lemma_pow2_unfold((k + 1) as nat);
        }
        if p > usize::MAX / 2 {
            return k + 1;
        }
        p = p * 2;
        k = k + 1;
    }
    k
}

/// Round-up division.
pub fn div_ceil(a: usize, b: usize) -> (r: usize)
    requires
        b > 0,
        a + b <= usize::MAX,
    ensures
        r == (a + b - 1) / (b as int),
{
    (a + b - 1) / b
}

/// The physical range the boot phase occupies: from the start of physical memory to the
/// boot allocator's end rounded up to a page. Returns its base and size.
pub fn bootmem_reserved_range(layout: &LinkerLayout, alloc_end: usize) -> (r: (usize, usize))
    requires
        align_up_spec(alloc_end as int, PAGE_SIZE as int) <= usize::MAX,
        align_up_spec(alloc_end as int, PAGE_SIZE as int) >= layout.physical_base,
    ensures
        r.0 == layout.physical_base,
        r.1 == align_up_spec(alloc_end as int, PAGE_SIZE as int) - layout.physical_base,
{
    let alloc_end = crate::mm::addr::PhysAddr::new(alloc_end).align_up(PAGE_SIZE);
    let pa_base = layout.phy_base();
    let size = alloc_end.as_usize() - pa_base;
    (pa_base, size)
}

/// The region the boot phase used, from the start of physical memory to the end of its
/// allocations rounded up to a page, on node 0.
pub open spec fn boot_reserved_region(layout: LinkerLayout, alloc_end: usize) -> DtbMemRegion {
    DtbMemRegion {
        base: layout.physical_base,
        size: (align_up_spec(alloc_end as int, PAGE_SIZE as int) - layout.physical_base) as usize,
        numa_id: Some(0),
        kind: DtbMemKind::Reserved,
        hotpluggable: false,
    }
}

/// The regions handed to the boot memory allocator, in order: what the boot phase used,
/// reserved, then the memory regions of the device tree.
pub fn bootmem_setup(layout: &LinkerLayout, alloc_end: usize, mem: &Vec<DtbMemRegion>) -> (r: Vec<DtbMemRegion>)
    requires
        align_up_spec(alloc_end as int, PAGE_SIZE as int) <= usize::MAX,
        align_up_spec(alloc_end as int, PAGE_SIZE as int) >= layout.physical_base,
    ensures
        r@ == seq![boot_reserved_region(*layout, alloc_end)] + mem@,
{
    let (base, size) = bootmem_reserved_range(layout, alloc_end);
    let mut out: Vec<DtbMemRegion> = Vec::new();
    out.push(DtbMemRegion { base, size, numa_id: Some(0), kind: DtbMemKind::Reserved, hotpluggable: false });
    let mut i: usize = 0;
    while i < mem.len()
        invariant
            i <= mem@.len(),
            out@ == seq![boot_reserved_region(*layout, alloc_end)] + mem@.take(i as int),
        decreases mem@.len() - i,
    {
        out.push(mem[i]);
        proof {
            assert(mem@.take(i + 1) =~= mem@.take(i as int).push(mem@[i as int]));
        }
        i = i + 1;
        assert(out@ =~= seq![boot_reserved_region(*layout, alloc_end)] + mem@.take(i as int));
    }
    assert(mem@.take(mem@.len() as int) =~= mem@);
    out
}

/// Per-CPU areas: nothing is allocated for them yet.
pub fn percpu_setup() {
}

/// Page descriptors: nothing is set up for them yet.
pub fn pages_setup() {
}

} // verus!

use vstd::prelude::*;

verus! {

/// Maximum number of CPUs the kernel supports.
pub const MAX_CPUS: usize = 64;

/// Maximum number of NUMA nodes the kernel supports.
pub const MAX_NODES: usize = 64;

/// Number of 64-bit words in a CPU bitmap (`MAX_CPUS` rounded up to whole words).
pub const CPUMASK_BITMAP_LEN: usize = 1;

/// Shift of the base page size.
pub const PAGE_SHIFT: usize = 12;

/// Base page size in bytes.
pub const PAGE_SIZE: usize = 4096;

/// Proof that the bitmap length is `MAX_CPUS` divided by the word width, rounded up.
pub proof fn lemma_bitmap_len()
    ensures
        CPUMASK_BITMAP_LEN == (MAX_CPUS + 64 - 1) / 64,
        PAGE_SIZE == 1usize << PAGE_SHIFT,
{
    assert(1usize << 12usize == 4096usize) by (bit_vector);
}

} // verus!

//! RISC-V page table constants.

use vstd::prelude::*;

verus! {

/// Bits per page table level (VPN width).
pub const PT_LEVEL_BITS: usize = 9;

/// Entries per page table.
pub const PT_ENTRIES: usize = 512;

/// Proof that the entry count is `1 << PT_LEVEL_BITS`.
pub proof fn lemma_pt_entries()
    ensures
        PT_ENTRIES == 1usize << PT_LEVEL_BITS,
{
    assert(1usize << 9usize == 512usize) by (bit_vector);
}

/// Shift of the virtual-address bits that index a table at physical level `phys_level`.
pub open spec fn level_shift_spec(phys_level: usize) -> int {
    12 + 9 * phys_level
}

/// Shift of the virtual-address bits that index a table at physical level `phys_level`.
pub fn level_shift(phys_level: usize) -> (r: usize)
    requires
        phys_level <= 5,
    ensures
        r == level_shift_spec(phys_level),
{
    12 + PT_LEVEL_BITS * phys_level
}

} // verus!

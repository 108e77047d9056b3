//! The `satp` register.
//!
//! ```text
//! 63    60 59        44 43                    0
//! +-------+------------+----------------------+
//! | MODE  |    ASID    |        PPN           |
//! +-------+------------+----------------------+
//! ```

use vstd::prelude::*;

use super::CsrFile;

verus! {

/// MODE field offset.
pub const MODE_SHIFT: usize = 60;
/// MODE field mask.
pub const MODE_MASK: usize = 0xF;
/// ASID field offset.
pub const ASID_SHIFT: usize = 44;
/// ASID field mask (16 bits).
pub const ASID_MASK: usize = 0xFFFF;
/// PPN field offset.
pub const PPN_SHIFT: usize = 0;
/// PPN field mask (44 bits).
pub const PPN_MASK: u64 = 0xFFF_FFFF_FFFF;
/// Paging mode: bare.
pub const MODE_BARE: usize = 0;
/// Paging mode: Sv39.
pub const MODE_SV39: usize = 8;
/// Paging mode: Sv48.
pub const MODE_SV48: usize = 9;
/// Paging mode: Sv57.
pub const MODE_SV57: usize = 10;
/// Paging mode the kernel runs with.
pub const SATP_MODE: usize = MODE_SV48;
/// Shift of the MODE field.
pub const SATP_MODE_SHIFT: usize = MODE_SHIFT;

/// Reads `satp`.
pub fn read(csr: &CsrFile) -> (r: usize)
    ensures
        r == csr.satp,
{
    csr.satp
}

/// Writes `x` to `satp`; no other register changes.
pub fn write(csr: &mut CsrFile, x: usize)
    ensures
        *final(csr) == (CsrFile { satp: x, ..*old(csr) }),
{
    csr.satp = x;
}

/// Writes `x` to `satp` and returns the previous value.
pub fn swap(csr: &mut CsrFile, x: usize) -> (r: usize)
    ensures
        r == old(csr).satp,
        *final(csr) == (CsrFile { satp: x, ..*old(csr) }),
{
    let old_value = csr.satp;
    csr.satp = x;
    old_value
}

} // verus!

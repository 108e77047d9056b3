//! The `stimecmp` register (CSR 0x14d).

use vstd::prelude::*;

use super::CsrFile;

verus! {

/// Reads `stimecmp`.
pub fn read(csr: &CsrFile) -> (r: u64)
    ensures
        r == csr.stimecmp,
{
    csr.stimecmp
}

/// Writes `x` to `stimecmp`; no other register changes.
pub fn write(csr: &mut CsrFile, x: u64)
    ensures
        *final(csr) == (CsrFile { stimecmp: x, ..*old(csr) }),
{
    csr.stimecmp = x;
}

} // verus!

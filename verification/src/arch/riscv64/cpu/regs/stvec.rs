//! The `stvec` register.

use vstd::prelude::*;

use super::CsrFile;

verus! {

/// Reads `stvec`.
pub fn read(csr: &CsrFile) -> (r: usize)
    ensures
        r == csr.stvec,
{
    csr.stvec
}

/// Writes `x` to `stvec`; no other register changes.
pub fn write(csr: &mut CsrFile, x: usize)
    ensures
        *final(csr) == (CsrFile { stvec: x, ..*old(csr) }),
{
    csr.stvec = x;
}

} // verus!

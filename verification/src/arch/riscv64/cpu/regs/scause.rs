//! The `scause` register.

use vstd::prelude::*;

use super::CsrFile;

verus! {

/// Reads `scause`.
pub fn read(csr: &CsrFile) -> (r: usize)
    ensures
        r == csr.scause,
{
    csr.scause
}

/// Writes `x` to `scause`; no other register changes.
pub fn write(csr: &mut CsrFile, x: usize)
    ensures
        *final(csr) == (CsrFile { scause: x, ..*old(csr) }),
{
    csr.scause = x;
}

} // verus!

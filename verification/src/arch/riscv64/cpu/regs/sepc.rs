//! The `sepc` register.

use vstd::prelude::*;

use super::CsrFile;

verus! {

/// Reads `sepc`.
pub fn read(csr: &CsrFile) -> (r: usize)
    ensures
        r == csr.sepc,
{
    csr.sepc
}

/// Writes `x` to `sepc`; no other register changes.
pub fn write(csr: &mut CsrFile, x: usize)
    ensures
        *final(csr) == (CsrFile { sepc: x, ..*old(csr) }),
{
    csr.sepc = x;
}

} // verus!

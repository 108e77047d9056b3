//! The `tp` register.

use vstd::prelude::*;

use super::CsrFile;

verus! {

/// Reads `tp`.
pub fn read(csr: &CsrFile) -> (r: usize)
    ensures
        r == csr.tp,
{
    csr.tp
}

/// Writes `x` to `tp`; no other register changes.
pub fn write(csr: &mut CsrFile, x: usize)
    ensures
        *final(csr) == (CsrFile { tp: x, ..*old(csr) }),
{
    csr.tp = x;
}

} // verus!

//! The `stval` register.

use vstd::prelude::*;

use super::CsrFile;

verus! {

/// Reads `stval`.
pub fn read(csr: &CsrFile) -> (r: usize)
    ensures
        r == csr.stval,
{
    csr.stval
}

/// Writes `x` to `stval`; no other register changes.
pub fn write(csr: &mut CsrFile, x: usize)
    ensures
        *final(csr) == (CsrFile { stval: x, ..*old(csr) }),
{
    csr.stval = x;
}

} // verus!

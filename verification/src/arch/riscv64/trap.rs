//! Trap vector setup.

use vstd::prelude::*;

use super::cpu::regs;
use super::cpu::regs::CsrFile;

verus! {

/// Points `stvec` at the trap entry `vec`.
pub fn trap_set_vec(csr: &mut CsrFile, vec: usize)
    ensures
        *final(csr) == (CsrFile { stvec: vec, ..*old(csr) }),
{
    regs::stvec::write(csr, vec);
}

} // verus!

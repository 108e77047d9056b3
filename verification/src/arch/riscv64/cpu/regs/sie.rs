//! The `sie` register.

use vstd::prelude::*;

use super::CsrFile;

verus! {

/// Supervisor software interrupt enable.
pub const SIE_SSIE: usize = 2;
/// Supervisor timer interrupt enable.
pub const SIE_STIE: usize = 0x20;
/// Supervisor external interrupt enable.
pub const SIE_SEIE: usize = 0x200;

/// Reads `sie`.
pub fn read(csr: &CsrFile) -> (r: usize)
    ensures
        r == csr.sie,
{
    csr.sie
}

/// Writes `x` to `sie`; no other register changes.
pub fn write(csr: &mut CsrFile, x: usize)
    ensures
        *final(csr) == (CsrFile { sie: x, ..*old(csr) }),
{
    csr.sie = x;
}

/// Enables timer interrupts.
pub fn set_stie(csr: &mut CsrFile)
    ensures
        *final(csr) == (CsrFile { sie: old(csr).sie | SIE_STIE, ..*old(csr) }),
{
    csr.sie = csr.sie | SIE_STIE;
}

/// Disables timer interrupts.
pub fn clear_stie(csr: &mut CsrFile)
    ensures
        *final(csr) == (CsrFile { sie: old(csr).sie & !SIE_STIE, ..*old(csr) }),
{
    csr.sie = csr.sie & !SIE_STIE;
}

/// Enables software interrupts.
pub fn set_ssie(csr: &mut CsrFile)
    ensures
        *final(csr) == (CsrFile { sie: old(csr).sie | SIE_SSIE, ..*old(csr) }),
{
    csr.sie = csr.sie | SIE_SSIE;
}

/// Disables software interrupts.
pub fn clear_ssie(csr: &mut CsrFile)
    ensures
        *final(csr) == (CsrFile { sie: old(csr).sie & !SIE_SSIE, ..*old(csr) }),
{
    csr.sie = csr.sie & !SIE_SSIE;
}

/// Enables external interrupts.
pub fn set_seie(csr: &mut CsrFile)
    ensures
        *final(csr) == (CsrFile { sie: old(csr).sie | SIE_SEIE, ..*old(csr) }),
{
    csr.sie = csr.sie | SIE_SEIE;
}

/// Disables external interrupts.
pub fn clear_seie(csr: &mut CsrFile)
    ensures
        *final(csr) == (CsrFile { sie: old(csr).sie & !SIE_SEIE, ..*old(csr) }),
{
    csr.sie = csr.sie & !SIE_SEIE;
}

/// Setting an enable bit and then clearing it leaves that bit clear and every other bit as
/// it was.
pub proof fn lemma_set_then_clear(v: usize, bit: usize)
    requires
        bit == SIE_SSIE || bit == SIE_STIE || bit == SIE_SEIE,
    ensures
        ((v | bit) & !bit) & bit == 0,
        ((v | bit) & !bit) & !bit == v & !bit,
{
    assert(((v | bit) & !bit) & bit == 0) by (bit_vector);
    assert(((v | bit) & !bit) & !bit == v & !bit) by (bit_vector);
}

} // verus!

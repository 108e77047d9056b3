//! The `sstatus` register.

use vstd::prelude::*;

use super::CsrFile;

verus! {

/// Supervisor interrupt enable.
pub const SSTATUS_SIE: usize = 2;
/// Supervisor previous interrupt enable.
pub const SSTATUS_SPIE: usize = 0x20;
/// Supervisor previous privilege.
pub const SSTATUS_SPP: usize = 0x100;

/// Whether the SIE bit of an `sstatus` value is set.
pub open spec fn sie_set(v: usize) -> bool {
    v & SSTATUS_SIE != 0
}

/// Reads `sstatus`.
pub fn read(csr: &CsrFile) -> (r: usize)
    ensures
        r == csr.sstatus,
{
    csr.sstatus
}

/// Writes `x` to `sstatus`; no other register changes.
pub fn write(csr: &mut CsrFile, x: usize)
    ensures
        *final(csr) == (CsrFile { sstatus: x, ..*old(csr) }),
{
    csr.sstatus = x;
}

/// Whether supervisor interrupts are enabled.
pub fn read_sie(csr: &CsrFile) -> (r: bool)
    ensures
        r == sie_set(csr.sstatus),
{
    (read(csr) & SSTATUS_SIE) != 0
}

/// Enables supervisor interrupts (sets SIE).
pub fn set_sie(csr: &mut CsrFile)
    ensures
        *final(csr) == (CsrFile { sstatus: old(csr).sstatus | SSTATUS_SIE, ..*old(csr) }),
{
    csr.sstatus = csr.sstatus | SSTATUS_SIE;
}

/// Disables supervisor interrupts (clears SIE).
pub fn clear_sie(csr: &mut CsrFile)
    ensures
        *final(csr) == (CsrFile { sstatus: old(csr).sstatus & !SSTATUS_SIE, ..*old(csr) }),
{
    csr.sstatus = csr.sstatus & !SSTATUS_SIE;
}

/// Disables supervisor interrupts and returns the previous `sstatus`.
pub fn irq_save(csr: &mut CsrFile) -> (r: usize)
    ensures
        r == old(csr).sstatus,
        *final(csr) == (CsrFile { sstatus: old(csr).sstatus & !SSTATUS_SIE, ..*old(csr) }),
{
    let flags = csr.sstatus;
    csr.sstatus = flags & !SSTATUS_SIE;
    flags
}

/// Sets SIE again when it is set in `flags`; other bits of `flags` are ignored.
pub fn irq_restore(csr: &mut CsrFile, flags: usize)
    ensures
        *final(csr) == (CsrFile { sstatus: old(csr).sstatus | (flags & SSTATUS_SIE), ..*old(csr) }),
{
    csr.sstatus = csr.sstatus | (flags & SSTATUS_SIE);
}

/// Restoring what a save returned gives back the register as it was before the save.
pub proof fn lemma_save_restore(v: usize)
    ensures
        (v & !SSTATUS_SIE) | (v & SSTATUS_SIE) == v,
        !sie_set(v & !SSTATUS_SIE),
        sie_set((v & !SSTATUS_SIE) | (v & SSTATUS_SIE)) == sie_set(v),
{
    assert((v & !2usize) | (v & 2usize) == v) by (bit_vector);
    assert((v & !2usize) & 2usize == 0) by (bit_vector);
}

} // verus!

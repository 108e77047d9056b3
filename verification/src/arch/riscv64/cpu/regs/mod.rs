//! Supervisor registers of a RISC-V hart.
//!
//! The registers are held in a [`CsrFile`]; each accessor performs on it what the
//! corresponding CSR instruction does on the hart.

pub mod satp;
pub mod scause;
pub mod sepc;
pub mod sie;
pub mod sstatus;
pub mod stimecmp;
pub mod stval;
pub mod stvec;
pub mod tp;

use vstd::prelude::*;

verus! {

/// The supervisor registers the kernel reads and writes, plus the thread pointer.
#[derive(Clone, Copy, Debug, PartialEq, Eq, Structural)]
pub struct CsrFile {
    pub tp: usize,
    pub sstatus: usize,
    pub sie: usize,
    pub stvec: usize,
    pub satp: usize,
    pub sepc: usize,
    pub stval: usize,
    pub scause: usize,
    pub stimecmp: u64,
}

impl CsrFile {
    /// A register file with every register zero.
    pub fn new() -> (r: Self)
        ensures
            r.tp == 0 && r.sstatus == 0 && r.sie == 0 && r.stvec == 0 && r.satp == 0,
            r.sepc == 0 && r.stval == 0 && r.scause == 0 && r.stimecmp == 0,
    {
        CsrFile { tp: 0, sstatus: 0, sie: 0, stvec: 0, satp: 0, sepc: 0, stval: 0, scause: 0, stimecmp: 0 }
    }
}

} // verus!

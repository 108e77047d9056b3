//! Querying static system hardware specifications.

use vstd::prelude::*;

use crate::libs::dtb::DtbMemRegion;
use crate::mm::addr::PhysAddr;

verus! {

/// A uniform interface to fundamental hardware information such as the CPUs and the
/// physical memory regions. Platform discovery mechanisms (device tree, ACPI, firmware
/// tables) implement it.
pub trait SysSpec {
    /// The base physical address where the hardware description is located.
    fn addr() -> PhysAddr;

    /// Sets the address; fails when the description there is not recognised (for example
    /// a device tree with a wrong magic number).
    fn set_addr(&self, addr: PhysAddr) -> bool;

    /// The logical CPU indices present in the system.
    fn cpus(&self) -> Vec<usize>;

    /// The physical memory regions available to the system.
    fn mem_regions(&self) -> Vec<DtbMemRegion>;
}

} // verus!

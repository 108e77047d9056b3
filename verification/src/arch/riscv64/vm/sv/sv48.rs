//! RISC-V Sv48: four physical levels, none folded.

use vstd::prelude::*;

use crate::kernel::vm::level::PageLevel;
use crate::kernel::vm::level::level_index;
use crate::kernel::vm::pagetable::PageTableConfig;

verus! {

/// RISC-V Sv48 configuration.
#[derive(Clone, Copy)]
pub struct Sv48Config;

impl PageTableConfig for Sv48Config {
    open spec fn spec_physical_levels() -> usize {
        4
    }

    open spec fn spec_logical_to_physical(level: PageLevel) -> Option<usize> {
        Some(level_index(level) as usize)
    }

    open spec fn spec_physical_to_logical(phys_level: usize) -> PageLevel {
        if phys_level == 3 {
            PageLevel::PGD
        } else if phys_level == 2 {
            PageLevel::PUD
        } else if phys_level == 1 {
            PageLevel::PMD
        } else {
            PageLevel::PTE
        }
    }

    open spec fn spec_is_folded(level: PageLevel) -> bool {
        false
    }

    fn physical_levels() -> (r: usize) {
        4
    }

    fn logical_to_physical(level: PageLevel) -> (r: Option<usize>) {
        Some(level.as_index())
    }

    fn physical_to_logical(phys_level: usize) -> (r: PageLevel) {
        match phys_level {
            3 => PageLevel::PGD,
            2 => PageLevel::PUD,
            1 => PageLevel::PMD,
            _ => PageLevel::PTE,
        }
    }

    fn is_folded(level: PageLevel) -> (r: bool) {
        false
    }
}

/// In Sv48 logical and physical levels correspond one to one.
pub proof fn lemma_sv48_levels(l: PageLevel, p: usize)
    ensures
        !Sv48Config::spec_is_folded(l),
        Sv48Config::spec_logical_to_physical(l) is Some,
        Sv48Config::spec_physical_to_logical(Sv48Config::spec_logical_to_physical(l).unwrap()) == l,
        p < Sv48Config::spec_physical_levels() ==> Sv48Config::spec_logical_to_physical(
            Sv48Config::spec_physical_to_logical(p),
        ) == Some(p),
{
}

} // verus!

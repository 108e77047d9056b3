//! RISC-V Sv39: three physical levels, the PUD level folded.

use vstd::prelude::*;

use crate::kernel::vm::level::PageLevel;
use crate::kernel::vm::pagetable::PageTableConfig;

verus! {

/// RISC-V Sv39 configuration.
#[derive(Clone, Copy)]
pub struct Sv39Config;

impl PageTableConfig for Sv39Config {
    open spec fn spec_physical_levels() -> usize {
        3
    }

    open spec fn spec_logical_to_physical(level: PageLevel) -> Option<usize> {
        match level {
            PageLevel::PTE => Some(0),
            PageLevel::PMD => Some(1),
            PageLevel::PUD => None,
            PageLevel::PGD => Some(2),
        }
    }

    open spec fn spec_physical_to_logical(phys_level: usize) -> PageLevel {
        if phys_level == 2 {
            PageLevel::PGD
        } else if phys_level == 1 {
            PageLevel::PMD
        } else {
            PageLevel::PTE
        }
    }

    open spec fn spec_is_folded(level: PageLevel) -> bool {
        level == PageLevel::PUD
    }

    fn physical_levels() -> (r: usize) {
        3
    }

    fn logical_to_physical(level: PageLevel) -> (r: Option<usize>) {
        match level {
            PageLevel::PGD => Some(2),
            PageLevel::PUD => None,
            _ => Some(level.as_index()),
        }
    }

    fn physical_to_logical(phys_level: usize) -> (r: PageLevel) {
        match phys_level {
            2 => PageLevel::PGD,
            1 => PageLevel::PMD,
            _ => PageLevel::PTE,
        }
    }

    fn is_folded(level: PageLevel) -> (r: bool) {
        level == PageLevel::PUD
    }
}

/// In Sv39 only PUD is folded; every other level maps to a physical level and back, and
/// every physical level maps to a logical level and back.
pub proof fn lemma_sv39_levels(l: PageLevel, p: usize)
    ensures
        Sv39Config::spec_is_folded(l) <==> l == PageLevel::PUD,
        Sv39Config::spec_is_folded(l) <==> Sv39Config::spec_logical_to_physical(l) is None,
        !Sv39Config::spec_is_folded(l) ==> Sv39Config::spec_physical_to_logical(
            Sv39Config::spec_logical_to_physical(l).unwrap(),
        ) == l,
        p < Sv39Config::spec_physical_levels() ==> Sv39Config::spec_logical_to_physical(
            Sv39Config::spec_physical_to_logical(p),
        ) == Some(p),
{
}

} // verus!

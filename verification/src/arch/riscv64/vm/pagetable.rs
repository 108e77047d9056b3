//! The architecture's page table types: the generic ones, with the RISC-V geometry.

pub use crate::arch::riscv64::vm::consts::PT_ENTRIES;
pub use crate::arch::riscv64::vm::consts::PT_LEVEL_BITS;
pub use crate::kernel::vm::level::PageLevel;
pub use crate::kernel::vm::pagetable::PageTable;
pub use crate::kernel::vm::pagetable::PageTableConfig;
pub use crate::kernel::vm::pagetable::PageTableRoot;

pub mod cpu;
pub mod dtb;
pub mod fdt_api;
pub mod mem;
pub mod numa;
pub mod props;
pub mod raw;
pub mod structure;

pub use cpu::DtbCpu;
pub use dtb::Dtb;
pub use mem::DtbMemKind;
pub use mem::DtbMemRegion;

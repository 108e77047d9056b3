pub mod cpu;
pub mod numa;

pub use cpu::CpuDev;
pub use cpu::CpuId;

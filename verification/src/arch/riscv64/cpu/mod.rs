pub mod cpu;
pub mod regs;

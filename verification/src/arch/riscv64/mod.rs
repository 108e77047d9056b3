pub mod boot;
pub mod cpu;
pub mod mm;
pub mod vm;
pub mod trap;

pub mod cpu;
pub mod dev;
pub mod sched;
pub mod vm;

pub mod boot_alloc;
pub mod linker;
pub mod vm;
pub mod boot;

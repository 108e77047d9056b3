pub mod pte;
pub mod consts;
pub mod sv;
pub mod init;
pub mod pagetable;

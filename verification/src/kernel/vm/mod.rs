pub mod level;
pub mod pagetable;
pub mod pte;

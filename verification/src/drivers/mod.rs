pub mod sbi;

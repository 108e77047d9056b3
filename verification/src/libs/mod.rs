pub mod dtb;
pub mod endian;
pub mod error;
pub mod list;
pub mod unsafe_static;

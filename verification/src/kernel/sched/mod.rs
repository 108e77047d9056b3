pub mod cpu;
pub mod init;

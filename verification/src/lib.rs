use vstd::prelude::*;

pub mod config;

pub mod mm;
pub mod arch;
pub mod kernel;
pub mod cpu;
pub mod libs;
pub mod drivers;
pub mod build;

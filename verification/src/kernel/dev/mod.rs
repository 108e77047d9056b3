pub mod cpu;
pub mod sys_spec;

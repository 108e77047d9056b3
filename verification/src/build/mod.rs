pub mod assembly;
pub mod linker;
pub mod parse;

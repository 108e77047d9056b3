pub mod sv39;
pub mod sv48;

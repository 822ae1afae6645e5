pub mod exec;
pub mod file;
pub mod fs;

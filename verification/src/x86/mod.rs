pub mod io;
pub mod segments;

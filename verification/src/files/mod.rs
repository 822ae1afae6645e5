pub mod cursor;
pub mod handle;

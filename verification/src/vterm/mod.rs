pub mod keys;
pub mod memory;
pub mod router;
pub mod vterm;

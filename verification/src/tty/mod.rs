pub mod buffers;
pub mod device;
pub mod keyboard;
pub mod parser;
pub mod router;
pub mod tty;

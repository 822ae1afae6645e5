use vstd::prelude::*;

pub mod buffers;
pub mod collections;
pub mod files;
pub mod hardware;
pub mod input;
pub mod memory;
pub mod pipes;
pub mod process;
pub mod task;
pub mod syscall;
pub mod syscalls;
pub mod time;
pub mod tty;
pub mod vterm;
pub mod x86;

verus! {

} // verus!

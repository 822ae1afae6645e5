//! The userspace side of the syscall interface. A syscall is made by loading
//! a method number and up to three arguments into registers and raising
//! interrupt 0x2b; each function here builds the register values for one
//! syscall. Arguments that point into the caller's memory are passed as
//! 32-bit addresses.
pub mod data;
pub mod files;
pub mod result;

use vstd::prelude::*;

verus! {

/// The register values of one syscall: the method number in `eax`, and the
/// arguments in `ebx`, `ecx` and `edx`.
#[derive(Copy, Clone, Debug, PartialEq, Eq, Structural)]
pub struct SyscallArgs {
    pub method: u32,
    pub arg0: u32,
    pub arg1: u32,
    pub arg2: u32,
}

/// Shorthand for the register values of a syscall.
pub open spec fn args(method: u32, arg0: u32, arg1: u32, arg2: u32) -> SyscallArgs {
    SyscallArgs { method, arg0, arg1, arg2 }
}

fn make(method: u32, arg0: u32, arg1: u32, arg2: u32) -> (r: SyscallArgs)
    ensures
        r == args(method, arg0, arg1, arg2),
{
    SyscallArgs { method, arg0, arg1, arg2 }
}

pub fn debug() -> (r: SyscallArgs)
    ensures
        r == args(0xffff, 0, 0, 0),
{
    make(0xffff, 0, 0, 0)
}

/// Open the file whose path is described by the `StringPtr` at `path_ptr`.
pub fn open(path_ptr: u32) -> (r: SyscallArgs)
    ensures
        r == args(0x10, path_ptr, 0, 0),
{
    make(0x10, path_ptr, 0, 0)
}

/// Read up to `length` bytes from `handle` into the buffer at `buffer`.
pub fn read(handle: u32, buffer: u32, length: usize) -> (r: SyscallArgs)
    ensures
        r == args(0x12, handle, buffer, length as u32),
{
    make(0x12, handle, buffer, length as u32)
}

/// Write `length` bytes from the buffer at `buffer` to `handle`.
pub fn write(handle: u32, buffer: u32, length: usize) -> (r: SyscallArgs)
    ensures
        r == args(0x13, handle, buffer, length as u32),
{
    make(0x13, handle, buffer, length as u32)
}

/// Duplicate `handle` into the first free handle.
pub fn dup(handle: u32) -> (r: SyscallArgs)
    ensures
        r == args(0x1d, handle, 0xffffffff, 0),
{
    make(0x1d, handle, 0xffffffff, 0)
}

/// Duplicate `handle` into `replace`, closing what was open there.
pub fn dup2(handle: u32, replace: u32) -> (r: SyscallArgs)
    ensures
        r == args(0x1d, handle, replace, 0),
{
    make(0x1d, handle, replace, 0)
}

pub fn ioctl(handle: u32, command: u32, arg: u32) -> (r: SyscallArgs)
    ensures
        r == args(0x1e, handle, command, arg),
{
    make(0x1e, handle, command, arg)
}

/// Create a pipe, storing its read and write handles at the two addresses.
pub fn pipe(read_handle_ptr: u32, write_handle_ptr: u32) -> (r: SyscallArgs)
    ensures
        r == args(0x1f, read_handle_ptr, write_handle_ptr, 0),
{
    make(0x1f, read_handle_ptr, write_handle_ptr, 0)
}

/// Move the cursor of `handle` to an absolute position.
pub fn seek(handle: u32, position: u32) -> (r: SyscallArgs)
    ensures
        r == args(0x20, handle, 0, position),
{
    make(0x20, handle, 0, position)
}

/// Move the cursor of `handle` by a signed offset.
pub fn seek_relative(handle: u32, offset: i32) -> (r: SyscallArgs)
    ensures
        r == args(0x20, handle, 1, offset as u32),
{
    make(0x20, handle, 1, offset as u32)
}

pub fn fork() -> (r: SyscallArgs)
    ensures
        r == args(0x01, 0, 0, 0),
{
    make(0x01, 0, 0, 0)
}

/// Replace the running program with the one at the path described by the
/// `StringPtr` at `path_ptr`.
pub fn exec(path_ptr: u32) -> (r: SyscallArgs)
    ensures
        r == args(0x02, path_ptr, 0, 0),
{
    make(0x02, path_ptr, 0, 0)
}

/// Like `exec`, with an argument string.
pub fn execv(path_ptr: u32, args_ptr: u32) -> (r: SyscallArgs)
    ensures
        r == args(0x02, path_ptr, args_ptr, 0),
{
    make(0x02, path_ptr, args_ptr, 0)
}

/// Like `exec`, forcing the format the program is interpreted as.
pub fn exec_format(path_ptr: u32, format: u32) -> (r: SyscallArgs)
    ensures
        r == args(0x02, path_ptr, 0, format),
{
    make(0x02, path_ptr, 0, format)
}

/// Set the end of the heap to `addr`.
pub fn brk(addr: u32) -> (r: SyscallArgs)
    ensures
        r == args(0x04, 0, addr, 0),
{
    make(0x04, 0, addr, 0)
}

/// Move the end of the heap by `delta` bytes.
pub fn sbrk(delta: i32) -> (r: SyscallArgs)
    ensures
        r == args(0x04, 1, delta as u32, 0),
{
    make(0x04, 1, delta as u32, 0)
}

pub fn yield_coop() -> (r: SyscallArgs)
    ensures
        r == args(0x06, 0, 0, 0),
{
    make(0x06, 0, 0, 0)
}

pub fn sleep(ms: u32) -> (r: SyscallArgs)
    ensures
        r == args(0x05, ms, 0, 0),
{
    make(0x05, ms, 0, 0)
}

pub fn exit(code: u32) -> (r: SyscallArgs)
    ensures
        r == args(0, code, 0, 0),
{
    make(0, code, 0, 0)
}

pub fn get_pid() -> (r: SyscallArgs)
    ensures
        r == args(0x03, 0, 0, 0),
{
    make(0x03, 0, 0, 0)
}

/// Wait for process `id` (0 for any child) to exit, storing its exit code at
/// `status_ptr`.
pub fn wait_pid(id: u32, status_ptr: u32) -> (r: SyscallArgs)
    ensures
        r == args(0x09, id, status_ptr, 0),
{
    make(0x09, id, status_ptr, 0)
}

/// Send a signal to a specific process, equivalent to POSIX `kill`.
pub fn send_signal(pid: u32, signal: u32) -> (r: SyscallArgs)
    ensures
        r == args(0x08, pid, signal, 0),
{
    make(0x08, pid, signal, 0)
}

/// Send a signal to the calling process.
pub fn raise(signal: u32) -> (r: SyscallArgs)
    ensures
        r == args(0x07, signal, 0, 0),
{
    make(0x07, signal, 0, 0)
}

} // verus!

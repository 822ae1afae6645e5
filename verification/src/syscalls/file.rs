//! Syscalls on open files. Reading and writing reach a drive, which the
//! caller does with the open file that `task::io::get_open_file` names.
use vstd::prelude::*;
use crate::files::cursor::SeekMethod;
use crate::files::handle::FileHandle;
use crate::syscall::files::DirEntryInfo;
use crate::syscall::result::SystemError;
use crate::task;
use crate::task::switching::{changed_only_at, TaskMap};

verus! {

/// Device control commands are not supported yet.
pub fn ioctl(handle: u32, command: u32, arg: u32) -> (r: Result<u32, SystemError>)
    ensures
        r == Err::<u32, SystemError>(SystemError::IOError),
{
    Err(SystemError::IOError)
}

/// Duplicate handle `to_duplicate`, into `to_replace`, or into the first
/// free handle when `to_replace` is 0xffffffff.
pub fn dup(tasks: &mut TaskMap, to_duplicate: u32, to_replace: u32) -> (r: Result<u32, SystemError>)
    requires
        old(tasks).wf(),
        old(tasks).has(old(tasks).current_id),
    ensures
        final(tasks).wf(),
        final(tasks).current_id == old(tasks).current_id,
        ({
            let i = old(tasks).index_of(old(tasks).current_id);
            let files = old(tasks).processes@[i].open_files@;
            let after = final(tasks).processes@[i];
            let first = crate::collections::first_empty(files);
            &&& changed_only_at(old(tasks).processes@, final(tasks).processes@, i)
            &&& after.state == old(tasks).processes@[i].state
            &&& if to_duplicate >= files.len() || files[to_duplicate as int] is None {
                &&& r == Err::<u32, SystemError>(SystemError::BadFileDescriptor)
                &&& after.open_files@ == files
            } else if to_replace == 0xffffffff {
                &&& r == Ok::<u32, SystemError>(first as u32)
                &&& first < files.len() ==> after.open_files@ == files.update(first, files[to_duplicate as int])
                &&& first == files.len() ==> after.open_files@ == files.push(files[to_duplicate as int])
            } else {
                &&& r == Ok::<u32, SystemError>(to_replace)
                &&& after.open_files@.len() >= to_replace + 1
                &&& after.open_files@[to_replace as int] == files[to_duplicate as int]
                &&& forall|j: int| 0 <= j < after.open_files@.len() && j != to_replace ==> #[trigger] after.open_files@[j]
                    == if j < files.len() { files[j] } else { None }
            }
        }),
{
    let from_handle = FileHandle::new(to_duplicate);
    let to_handle = if to_replace == 0xffffffff {
        None
    } else {
        Some(FileHandle::new(to_replace))
    };
    match task::io::dup(tasks, from_handle, to_handle) {
        Ok(h) => Ok(h.as_u32()),
        Err(e) => Err(e),
    }
}

/// Pipes cannot be created from userspace yet.
pub fn pipe() -> (r: Result<(u32, u32), SystemError>)
    ensures
        r == Err::<(u32, u32), SystemError>(SystemError::Unknown),
{
    Err(SystemError::Unknown)
}

/// How `seek` moves the cursor: method 1 moves it by the signed `cursor`,
/// any other method moves it to the absolute position `cursor`.
pub fn seek_method(method: u32, cursor: u32) -> (r: SeekMethod)
    ensures
        r == if method == 1 {
            SeekMethod::Relative((cursor as i32) as isize)
        } else {
            SeekMethod::Absolute(cursor as usize)
        },
{
    match method {
        1 => SeekMethod::Relative(cursor as i32 as isize),
        _ => SeekMethod::Absolute(cursor as usize),
    }
}

/// Directories cannot be opened from userspace yet.
pub fn open_dir(path_str: &str) -> (r: Result<u32, SystemError>)
    ensures
        r == Err::<u32, SystemError>(SystemError::Unknown),
{
    Err(SystemError::Unknown)
}

/// Directories cannot be read from userspace yet.
pub fn read_dir(handle: u32, index: usize, info: &mut DirEntryInfo) -> (r: Result<(), SystemError>)
    ensures
        r == Err::<(), SystemError>(SystemError::Unknown),
        *final(info) == *old(info),
{
    Err(SystemError::Unknown)
}

} // verus!

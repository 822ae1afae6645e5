//! File access on behalf of the running process. The drives themselves are
//! reached by the caller; what is decided here is which open file a handle
//! names, and how handles are duplicated.
use vstd::prelude::*;
use crate::files::handle::FileHandle;
use crate::syscall::result::SystemError;
use super::files::OpenFile;
use super::switching::{changed_only_at, lemma_slot_change_keeps_table, TaskMap};

verus! {

/// The open file that `handle` names in the running process; a handle with
/// no open file is a bad descriptor.
pub fn get_open_file(tasks: &TaskMap, handle: FileHandle) -> (r: Result<OpenFile, SystemError>)
    requires
        tasks.wf(),
        tasks.has(tasks.current_id),
    ensures
        ({
            let files = tasks.process(tasks.current_id).open_files@;
            if handle.0 < files.len() && files[handle.0 as int] is Some {
                r == Ok::<OpenFile, SystemError>(files[handle.0 as int].unwrap())
            } else {
                r == Err::<OpenFile, SystemError>(SystemError::BadFileDescriptor)
            }
        }),
{
    let i = tasks.position(tasks.current_id).unwrap();
    match tasks.processes[i].get_open_file_info(handle) {
        Some(info) => Ok(*info),
        None => Err(SystemError::BadFileDescriptor),
    }
}

/// Duplicate the running process's handle `from_handle`, into `to_handle`
/// or, when that is `None`, into the first free handle. Returns the handle
/// that now refers to the file; a handle with no open file is a bad
/// descriptor.
pub fn dup(tasks: &mut TaskMap, from_handle: FileHandle, to_handle: Option<FileHandle>) -> (r: Result<FileHandle, SystemError>)
    requires
        old(tasks).wf(),
        old(tasks).has(old(tasks).current_id),
        to_handle matches Some(h) ==> h.0 < usize::MAX,
    ensures
        final(tasks).wf(),
        final(tasks).current_id == old(tasks).current_id,
        ({
            let i = old(tasks).index_of(old(tasks).current_id);
            let files = old(tasks).processes@[i].open_files@;
            let after = final(tasks).processes@[i];
            &&& changed_only_at(old(tasks).processes@, final(tasks).processes@, i)
            &&& after.state == old(tasks).processes@[i].state
            &&& if from_handle.0 >= files.len() || files[from_handle.0 as int] is None {
                &&& r == Err::<FileHandle, SystemError>(SystemError::BadFileDescriptor)
                &&& after.open_files@ == files
            } else {
                let entry = files[from_handle.0 as int];
                match to_handle {
                    Some(h) => {
                        &&& r == Ok::<FileHandle, SystemError>(h)
                        &&& after.open_files@.len() >= h.0 + 1
                        &&& after.open_files@[h.0 as int] == entry
                        &&& forall|j: int| 0 <= j < after.open_files@.len() && j != h.0 ==> #[trigger] after.open_files@[j]
                            == if j < files.len() { files[j] } else { None }
                    },
                    None => {
                        &&& r == Ok::<FileHandle, SystemError>(FileHandle(crate::collections::first_empty(files) as u32))
                        &&& crate::collections::first_empty(files) < files.len() ==> after.open_files@
                            == files.update(crate::collections::first_empty(files), entry)
                        &&& crate::collections::first_empty(files) == files.len() ==> after.open_files@
                            == files.push(entry)
                    },
                }
            }
        }),
{
    let i = tasks.position(tasks.current_id).unwrap();
    let ghost before = *tasks;
    let (_, new_handle) = tasks.processes[i].duplicate_file_descriptor(from_handle, to_handle);
    proof {
        lemma_slot_change_keeps_table(before, *tasks, i as int);
    }
    match new_handle {
        Some(h) => Ok(h),
        None => Err(SystemError::BadFileDescriptor),
    }
}

} // verus!

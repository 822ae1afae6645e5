//! Syscalls about drives. Drive names are resolved by the caller; what is
//! kept here is the running process's current drive.
use vstd::prelude::*;
use crate::syscall::result::SystemError;
use crate::task::files::DriveID;
use crate::task::switching::{changed_only_at, lemma_slot_change_keeps_table, TaskMap};

verus! {

/// Register the calling process as a new filesystem driver.
pub fn register() {
}

/// Make `drive` (the drive found under the requested name, if any) the
/// calling process's current drive, returning its number.
pub fn set_current_drive(tasks: &mut TaskMap, drive: Option<DriveID>) -> (r: Result<u32, SystemError>)
    requires
        old(tasks).wf(),
        old(tasks).has(old(tasks).current_id),
    ensures
        final(tasks).wf(),
        final(tasks).current_id == old(tasks).current_id,
        match drive {
            None => r == Err::<u32, SystemError>(SystemError::NoSuchDrive)
                && final(tasks).processes@ == old(tasks).processes@,
            Some(d) => {
                let i = old(tasks).index_of(old(tasks).current_id);
                &&& r == Ok::<u32, SystemError>(d.0 as u32)
                &&& changed_only_at(old(tasks).processes@, final(tasks).processes@, i)
                &&& final(tasks).processes@[i].current_drive == d
                &&& final(tasks).processes@[i].state == old(tasks).processes@[i].state
            },
        },
{
    let drive_id = match drive {
        Some(d) => d,
        None => return Err(SystemError::NoSuchDrive),
    };
    let i = tasks.position(tasks.current_id).unwrap();
    let ghost before = *tasks;
    tasks.processes[i].current_drive = drive_id;
    proof {
        lemma_slot_change_keeps_table(before, *tasks, i as int);
    }
    Ok(drive_id.as_u32())
}

/// Copy the name of the calling process's current drive (`name`, when the
/// drive has one) into `buffer`, at most 8 bytes, returning how many were
/// copied.
pub fn get_current_drive_name(name: Option<&Vec<u8>>, buffer: &mut Vec<u8>) -> (r: Result<u32, SystemError>)
    requires
        name matches Some(n) ==> old(buffer)@.len() >= if n@.len() > 8 { 8 } else { n@.len() },
    ensures
        match name {
            None => r == Err::<u32, SystemError>(SystemError::NoSuchDrive) && final(buffer)@ == old(buffer)@,
            Some(n) => {
                let len = if n@.len() > 8 { 8 } else { n@.len() };
                &&& r == Ok::<u32, SystemError>(len as u32)
                &&& final(buffer)@ == n@.subrange(0, len as int) + old(buffer)@.subrange(len as int, old(buffer)@.len() as int)
            },
        },
{
    let name_bytes = match name {
        Some(n) => n,
        None => return Err(SystemError::NoSuchDrive),
    };
    let mut len = name_bytes.len();
    if len > 8 {
        len = 8;
    }
    let mut i: usize = 0;
    while i < len
        invariant
            i <= len,
            len <= name_bytes@.len(),
            len <= 8,
            buffer@.len() == old(buffer)@.len(),
            len <= buffer@.len(),
            forall|j: int| 0 <= j < i ==> buffer@[j] == name_bytes@[j],
            forall|j: int| i <= j < buffer@.len() ==> buffer@[j] == old(buffer)@[j],
        decreases len - i,
    {
        buffer.set(i, name_bytes[i]);
        i += 1;
    }
    assert(buffer@ =~= name_bytes@.subrange(0, len as int) + old(buffer)@.subrange(len as int, old(buffer)@.len() as int));
    Ok(len as u32)
}

/// The number of the calling process's current drive.
pub fn get_current_drive_number(tasks: &TaskMap) -> (r: Result<u32, SystemError>)
    requires
        tasks.wf(),
        tasks.has(tasks.current_id),
    ensures
        r == Ok::<u32, SystemError>(tasks.process(tasks.current_id).current_drive.0 as u32),
{
    let i = tasks.position(tasks.current_id).unwrap();
    Ok(tasks.processes[i].current_drive.as_u32())
}

} // verus!

pub mod exec;
pub mod directory_fork;
pub mod files;
pub mod id;
pub mod io;
pub mod ipc;
pub mod memory;
pub mod mmap_laws;
pub mod mmap_list;
pub mod paging;
pub mod process;
pub mod regs;
pub mod signal;
pub mod stack;
pub mod state;
pub mod switching;
pub mod unmap_laws;
pub mod vm;
pub mod vterm;

use vstd::prelude::*;
use crate::memory::page_table::PageTableReference;
use id::ProcessID;
use ipc::{more_unexpired, unexpired, EnqueuedIPC, IPCMessage, IPCPacket};
use memory::segment_views;
use process::only_state_changed;
use stack::{lowest_free, slot_taken, STACKS_TOP, STACK_SIZE};
use state::RunState;
use switching::{changed_only_at, forked_stack, lemma_slot_change_keeps_table, next_process, TaskMap};

verus! {

/// Cooperatively yield: pick the next process to run and make it current.
/// The caller then switches to the returned process's stack.
pub fn yield_coop(tasks: &mut TaskMap) -> (r: Option<ProcessID>)
    ensures
        r == next_process(old(tasks).processes@, old(tasks).current_id),
        final(tasks).current_id == (match r {
            Some(id) => id,
            None => old(tasks).current_id,
        }),
        final(tasks).processes@ == old(tasks).processes@,
        final(tasks).next_id == old(tasks).next_id,
        final(tasks).stacks@ == old(tasks).stacks@,
{
    tasks.yield_coop()
}

/// The ID of the running process.
pub fn get_current_id(tasks: &TaskMap) -> (r: ProcessID)
    ensures
        r == tasks.current_id,
{
    tasks.get_current_id()
}

/// Put the running process to sleep for `duration` milliseconds, and pick the
/// process to run in the meantime.
pub fn sleep(tasks: &mut TaskMap, duration: usize) -> (r: Option<ProcessID>)
    requires
        old(tasks).wf(),
        old(tasks).has(old(tasks).current_id),
    ensures
        final(tasks).wf(),
        ({
            let i = old(tasks).index_of(old(tasks).current_id);
            &&& changed_only_at(old(tasks).processes@, final(tasks).processes@, i)
            &&& final(tasks).processes@[i].state == RunState::Sleeping(duration)
            &&& only_state_changed(old(tasks).processes@[i], final(tasks).processes@[i])
        }),
        r == next_process(final(tasks).processes@, old(tasks).current_id),
        final(tasks).current_id == (match r {
            Some(id) => id,
            None => old(tasks).current_id,
        }),
{
    let i = tasks.position(tasks.current_id).unwrap();
    let ghost before = *tasks;
    tasks.processes[i].sleep(duration);
    proof {
        lemma_slot_change_keeps_table(before, *tasks, i as int);
    }
    tasks.yield_coop()
}

/// Fork the running process, with the page directory prepared for the
/// child, returning the child's ID.
pub fn fork(tasks: &mut TaskMap, current_ticks: u32, page_directory: PageTableReference) -> (r: ProcessID)
    requires
        old(tasks).wf(),
        old(tasks).has(old(tasks).current_id),
        old(tasks).stacks@.len() * 8 + 8 <= usize::MAX,
        forall|i: int| lowest_free(old(tasks).stacks@, i) ==> (i + 1) * STACK_SIZE <= STACKS_TOP,
        old(tasks).next_id.0 < u32::MAX,
    ensures
        final(tasks).wf(),
        r.0 == old(tasks).next_id.0,
        !old(tasks).has(r),
        final(tasks).processes@.len() == old(tasks).processes@.len() + 1,
        final(tasks).next_id.0 == old(tasks).next_id.0 + 1,
        final(tasks).current_id == old(tasks).current_id,
        final(tasks).has(r),
        ({
            let parent = old(tasks).process(old(tasks).current_id);
            let child = final(tasks).process(r);
            &&& child.parent_id == parent.id
            &&& child.state == RunState::Running
            &&& child.start_ticks == current_ticks
            &&& child.page_directory == page_directory
            &&& child.open_files@ == parent.open_files@
            &&& child.exec_file == parent.exec_file
            &&& child.vterm == parent.vterm
            &&& child.memory.mmap_regions@ == parent.memory.mmap_regions@
            &&& child.memory.heap_start == parent.memory.heap_start
            &&& child.memory.heap_size == parent.memory.heap_size
            &&& child.memory.memory_top == parent.memory.memory_top
            &&& segment_views(child.memory.execution_segments@) == segment_views(parent.memory.execution_segments@)
            &&& child.relocations@ == parent.relocations@
            &&& child.current_drive == parent.current_drive
            &&& child.ipc_queue@.len() == 0
            &&& child.stack_pointer == child.kernel_stack.unwrap().start + STACK_SIZE - 64
            &&& forked_stack(parent.kernel_stack.unwrap().data@, child.kernel_stack.unwrap().data@)
            &&& exists|i: int| lowest_free(old(tasks).stacks@, i)
                && child.kernel_stack.unwrap().start == STACKS_TOP - (i + 1) * STACK_SIZE
                && forall|j: int| #[trigger] slot_taken(final(tasks).stacks@, j) <==> (slot_taken(old(tasks).stacks@, j) || j == i)
        }),
        forall|id: ProcessID| id != r ==> (#[trigger] final(tasks).has(id) <==> old(tasks).has(id)),
        forall|id: ProcessID| id != r && old(tasks).has(id) ==> #[trigger] final(tasks).process(id)
            == old(tasks).process(id),
{
    proof {
        let k = old(tasks).index_of(old(tasks).current_id);
        assert(old(tasks).processes@[k].id == old(tasks).current_id);
    }
    tasks.fork(current_ticks, page_directory)
}

/// Block the running process until the given child, or any child, exits,
/// and pick the process to run in the meantime. Once resumed, the process
/// collects the child's exit code with `resume_from_wait`.
pub fn wait(tasks: &mut TaskMap, child_id: Option<ProcessID>) -> (r: Option<ProcessID>)
    requires
        old(tasks).wf(),
        old(tasks).has(old(tasks).current_id),
    ensures
        final(tasks).wf(),
        ({
            let i = old(tasks).index_of(old(tasks).current_id);
            &&& changed_only_at(old(tasks).processes@, final(tasks).processes@, i)
            &&& final(tasks).processes@[i].state == RunState::WaitingForChild(child_id)
            &&& only_state_changed(old(tasks).processes@[i], final(tasks).processes@[i])
        }),
        r == next_process(final(tasks).processes@, old(tasks).current_id),
        final(tasks).current_id == (match r {
            Some(id) => id,
            None => old(tasks).current_id,
        }),
{
    let i = tasks.position(tasks.current_id).unwrap();
    let ghost before = *tasks;
    tasks.processes[i].wait(child_id);
    proof {
        lemma_slot_change_keeps_table(before, *tasks, i as int);
    }
    tasks.yield_coop()
}

/// The running process leaves its wait, returning the exit code of the child
/// that resumed it (0 if it was not resumed by a child).
pub fn resume_from_wait(tasks: &mut TaskMap) -> (r: u32)
    requires
        old(tasks).wf(),
        old(tasks).has(old(tasks).current_id),
    ensures
        final(tasks).wf(),
        final(tasks).current_id == old(tasks).current_id,
        ({
            let i = old(tasks).index_of(old(tasks).current_id);
            &&& changed_only_at(old(tasks).processes@, final(tasks).processes@, i)
            &&& only_state_changed(old(tasks).processes@[i], final(tasks).processes@[i])
            &&& match old(tasks).processes@[i].state {
                RunState::Resumed(code) => r == code && final(tasks).processes@[i].state == RunState::Running,
                _ => r == 0 && final(tasks).processes@[i].state == old(tasks).processes@[i].state,
            }
        }),
{
    let i = tasks.position(tasks.current_id).unwrap();
    let ghost before = *tasks;
    let code = tasks.processes[i].resume_from_wait();
    proof {
        lemma_slot_change_keeps_table(before, *tasks, i as int);
    }
    code
}

/// Read an IPC message for the running process. When none is waiting, the
/// process blocks (until a message arrives or the timeout passes) and the
/// result is `(None, false)`: the caller yields, then reads again with
/// `ipc_read_unblocking`.
pub fn ipc_read(tasks: &mut TaskMap, current_ticks: u32, timeout: Option<usize>) -> (r: (Option<IPCPacket>, bool))
    requires
        old(tasks).wf(),
        old(tasks).has(old(tasks).current_id),
    ensures
        final(tasks).wf(),
        final(tasks).current_id == old(tasks).current_id,
        ({
            let i = old(tasks).index_of(old(tasks).current_id);
            let before = old(tasks).processes@[i];
            let after = final(tasks).processes@[i];
            let live = unexpired(before.ipc_queue@, current_ticks);
            &&& changed_only_at(old(tasks).processes@, final(tasks).processes@, i)
            &&& if live.len() == 0 {
                &&& r == (None::<IPCPacket>, false)
                &&& after.ipc_queue@ == live
                &&& after.state == RunState::AwaitingIPC(timeout)
            } else {
                &&& r == (Some(live[0].packet), more_unexpired(live, current_ticks))
                &&& after.ipc_queue@ == live.drop_first()
                &&& after.state == before.state
            }
        }),
{
    let i = tasks.position(tasks.current_id).unwrap();
    let ghost before = *tasks;
    let r = tasks.processes[i].ipc_read(current_ticks, timeout);
    proof {
        lemma_slot_change_keeps_table(before, *tasks, i as int);
    }
    r
}

/// Read an IPC message for the running process without blocking.
pub fn ipc_read_unblocking(tasks: &mut TaskMap, current_ticks: u32) -> (r: (Option<IPCPacket>, bool))
    requires
        old(tasks).wf(),
        old(tasks).has(old(tasks).current_id),
    ensures
        final(tasks).wf(),
        final(tasks).current_id == old(tasks).current_id,
        ({
            let i = old(tasks).index_of(old(tasks).current_id);
            let before = old(tasks).processes@[i];
            let after = final(tasks).processes@[i];
            let live = unexpired(before.ipc_queue@, current_ticks);
            &&& changed_only_at(old(tasks).processes@, final(tasks).processes@, i)
            &&& after.state == before.state
            &&& if live.len() == 0 {
                r == (None::<IPCPacket>, false) && after.ipc_queue@ == live
            } else {
                r == (Some(live[0].packet), more_unexpired(live, current_ticks)) && after.ipc_queue@ == live.drop_first()
            }
        }),
{
    let i = tasks.position(tasks.current_id).unwrap();
    let ghost before = *tasks;
    let r = tasks.processes[i].ipc_read_unblocking(current_ticks);
    proof {
        lemma_slot_change_keeps_table(before, *tasks, i as int);
    }
    r
}

/// Send an IPC message from the running process to process `to`, valid
/// until `expiration` ticks. A message to an unknown process is dropped.
pub fn ipc_send(tasks: &mut TaskMap, to: ProcessID, message: IPCMessage, expiration: u32, current_ticks: u32)
    requires
        old(tasks).wf(),
    ensures
        final(tasks).wf(),
        final(tasks).current_id == old(tasks).current_id,
        !old(tasks).has(to) ==> final(tasks).processes@ == old(tasks).processes@,
        old(tasks).has(to) ==> {
            let i = old(tasks).index_of(to);
            let before = old(tasks).processes@[i];
            let after = final(tasks).processes@[i];
            &&& changed_only_at(old(tasks).processes@, final(tasks).processes@, i)
            &&& after.ipc_queue@ == unexpired(before.ipc_queue@, current_ticks).push(
                EnqueuedIPC { packet: IPCPacket { from: old(tasks).current_id, message }, expiration_ticks: expiration })
            &&& after.state == (if before.state is AwaitingIPC { RunState::Running } else { before.state })
        },
{
    let current_id = tasks.current_id;
    match tasks.position(to) {
        Some(i) => {
            let ghost before = *tasks;
            tasks.processes[i].ipc_receive(current_ticks, current_id, message, expiration);
            proof {
                lemma_slot_change_keeps_table(before, *tasks, i as int);
            }
        },
        None => {},
    }
}

} // verus!

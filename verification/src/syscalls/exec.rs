//! Syscalls that control processes: scheduling, forking, exiting and the
//! heap. Those that may switch to another process return the ID of the
//! process to switch to; the caller performs the switch.
use vstd::prelude::*;
use crate::memory::address::VirtualAddress;
use crate::memory::page_table::PageTableReference;
use crate::task;
use crate::task::id::ProcessID;
use crate::task::stack::{lowest_free, STACKS_TOP, STACK_SIZE};
use crate::task::exec::signed_size;
use crate::task::process::{only_state_changed, same_except_state, state_after_child_exit};
use crate::task::state::RunState;
use crate::task::switching::{changed_only_at, next_process, TaskMap};

verus! {

pub fn yield_coop(tasks: &mut TaskMap) -> (r: Option<ProcessID>)
    ensures
        r == next_process(old(tasks).processes@, old(tasks).current_id),
        final(tasks).current_id == (match r {
            Some(id) => id,
            None => old(tasks).current_id,
        }),
        final(tasks).processes@ == old(tasks).processes@,
{
    task::yield_coop(tasks)
}

/// Put the calling process to sleep for `ms` milliseconds.
pub fn sleep(tasks: &mut TaskMap, ms: u32) -> (r: Option<ProcessID>)
    requires
        old(tasks).wf(),
        old(tasks).has(old(tasks).current_id),
    ensures
        final(tasks).wf(),
        ({
            let i = old(tasks).index_of(old(tasks).current_id);
            &&& changed_only_at(old(tasks).processes@, final(tasks).processes@, i)
            &&& final(tasks).processes@[i].state == RunState::Sleeping(ms as usize)
            &&& only_state_changed(old(tasks).processes@[i], final(tasks).processes@[i])
        }),
        r == next_process(final(tasks).processes@, old(tasks).current_id),
        final(tasks).current_id == (match r {
            Some(id) => id,
            None => old(tasks).current_id,
        }),
{
    task::sleep(tasks, ms as usize)
}

/// Fork the calling process; the parent gets the child's ID.
pub fn fork(tasks: &mut TaskMap, current_ticks: u32, page_directory: PageTableReference) -> (r: u32)
    requires
        old(tasks).wf(),
        old(tasks).has(old(tasks).current_id),
        old(tasks).stacks@.len() * 8 + 8 <= usize::MAX,
        forall|i: int| lowest_free(old(tasks).stacks@, i) ==> (i + 1) * STACK_SIZE <= STACKS_TOP,
        old(tasks).next_id.0 < u32::MAX,
    ensures
        final(tasks).wf(),
        r == old(tasks).next_id.0,
        !old(tasks).has(ProcessID(r)),
        final(tasks).has(ProcessID(r)),
        final(tasks).process(ProcessID(r)).parent_id == old(tasks).current_id,
{
    let id = task::fork(tasks, current_ticks, page_directory);
    id.as_u32()
}

/// End the calling process with `code`.
pub fn exit(tasks: &mut TaskMap, code: u32) -> (r: Option<ProcessID>)
    requires
        old(tasks).wf(),
        old(tasks).has(old(tasks).current_id),
    ensures
        final(tasks).wf(),
        ({
            let i = old(tasks).index_of(old(tasks).current_id);
            let me = old(tasks).processes@[i];
            let parent_id = me.parent_id;
            let p = old(tasks).index_of(parent_id);
            &&& final(tasks).processes@.len() == old(tasks).processes@.len()
            &&& final(tasks).processes@[i].state == RunState::Terminated
            &&& only_state_changed(me, final(tasks).processes@[i])
            &&& forall|j: int| 0 <= j < old(tasks).processes@.len() && j != i
                && !(old(tasks).has(parent_id) && j == p) ==> #[trigger] final(tasks).processes@[j]
                == old(tasks).processes@[j]
            &&& old(tasks).has(parent_id) && p != i ==> {
                &&& final(tasks).processes@[p].state == state_after_child_exit(
                    old(tasks).processes@[p].state, me.id, code)
                &&& only_state_changed(old(tasks).processes@[p], final(tasks).processes@[p])
            }
        }),
        r == next_process(final(tasks).processes@, old(tasks).current_id),
        final(tasks).current_id == (match r {
            Some(id) => id,
            None => old(tasks).current_id,
        }),
{
    task::exec::terminate(tasks, code)
}

pub fn get_pid(tasks: &TaskMap) -> (r: u32)
    ensures
        r == tasks.current_id.0,
{
    task::get_current_id(tasks).as_u32()
}

/// Block until process `id` exits, or any child when `id` is 0. Returns the
/// ID reported back to the caller (0 when waiting on any child) and the
/// process to switch to; once resumed, the exit code is collected with
/// `task::resume_from_wait`.
pub fn wait_pid(tasks: &mut TaskMap, id: u32) -> (r: (u32, Option<ProcessID>))
    requires
        old(tasks).wf(),
        old(tasks).has(old(tasks).current_id),
    ensures
        final(tasks).wf(),
        r.0 == id,
        ({
            let i = old(tasks).index_of(old(tasks).current_id);
            &&& changed_only_at(old(tasks).processes@, final(tasks).processes@, i)
            &&& only_state_changed(old(tasks).processes@[i], final(tasks).processes@[i])
            &&& final(tasks).processes@[i].state == if id == 0 {
                RunState::WaitingForChild(None)
            } else {
                RunState::WaitingForChild(Some(ProcessID(id)))
            }
        }),
        r.1 == next_process(final(tasks).processes@, old(tasks).current_id),
        final(tasks).current_id == (match r.1 {
            Some(pid) => pid,
            None => old(tasks).current_id,
        }),
{
    if id == 0 {
        let next = task::wait(tasks, None);
        (0, next)
    } else {
        let next = task::wait(tasks, Some(ProcessID::new(id)));
        (id, next)
    }
}

/// The heap's end for `brk`: method 0 sets it to the address `offset`,
/// method 1 moves it by the signed amount `offset`.
pub open spec fn brk_result(start: int, size: usize, method: u32, offset: u32) -> Result<u32, ()> {
    if method == 0 {
        if offset < start { Err(()) } else { Ok(offset) }
    } else if method == 1 {
        let new_size = if offset as i32 == 0 { size as int } else { signed_size(size) + (offset as i32) };
        if new_size < 0 { Err(()) } else { Ok((start + new_size) as u32) }
    } else {
        Err(())
    }
}

/// Change the end of the calling process's heap, returning the new end.
pub fn brk(tasks: &mut TaskMap, method: u32, offset: u32) -> (r: Result<u32, ()>)
    requires
        old(tasks).wf(),
        old(tasks).has(old(tasks).current_id),
        method == 1 ==> {
            let m = old(tasks).process(old(tasks).current_id).memory;
            let size = signed_size(m.heap_size) + (offset as i32);
            &&& offset as i32 != 0 ==> isize::MIN <= size <= isize::MAX
            &&& offset as i32 != 0 && size >= 0 ==> m.heap_start.0 + size <= u32::MAX
            &&& m.heap_start.0 + m.heap_size <= u32::MAX
        },
    ensures
        final(tasks).wf(),
        ({
            let m = old(tasks).process(old(tasks).current_id).memory;
            let i = old(tasks).index_of(old(tasks).current_id);
            &&& r == brk_result(m.heap_start.0 as int, m.heap_size, method, offset)
            &&& r is Ok ==> {
                let before = old(tasks).processes@[i];
                let after = final(tasks).processes@[i];
                &&& after.memory.heap_start == before.memory.heap_start
                &&& after.memory.heap_start.0 + after.memory.heap_size == r->Ok_0
                &&& changed_only_at(old(tasks).processes@, final(tasks).processes@, i)
                &&& after.memory.mmap_regions@ == before.memory.mmap_regions@
                &&& after.memory.execution_segments@ == before.memory.execution_segments@
                &&& after.memory.memory_top == before.memory.memory_top
                &&& after.state == before.state
                &&& same_except_state(before, after)
            }
            &&& r is Err ==> final(tasks).processes@ == old(tasks).processes@
        }),
{
    proof {
        let k = old(tasks).index_of(old(tasks).current_id);
        assert(old(tasks).processes@[k].id == old(tasks).current_id);
    }
    match method {
        0 => {
            match task::exec::set_heap_top(tasks, VirtualAddress::new(offset)) {
                Ok(addr) => Ok(addr.as_u32()),
                Err(e) => Err(e),
            }
        },
        1 => {
            let delta = offset as i32 as isize;
            match task::exec::move_heap_top(tasks, delta) {
                Ok(addr) => Ok(addr.as_u32()),
                Err(e) => Err(e),
            }
        },
        _ => Err(()),
    }
}

/// The delta that `sbrk` sends through a register is the one `brk` reads.
pub proof fn lemma_sbrk_delta_round_trip(delta: i32)
    ensures
        ((delta as u32) as i32) == delta,
{
    assert(((delta as u32) as i32) == delta) by (bit_vector);
}

} // verus!

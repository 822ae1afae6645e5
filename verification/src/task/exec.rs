//! Replacing the running program, process exit, and heap resizing for the
//! running process.
use vstd::prelude::*;
use crate::files::handle::LocalHandle;
use crate::memory::address::{page_ceil, VirtualAddress};
use super::files::DriveID;
use super::id::ProcessID;
use super::memory::{segments_fit, segments_high, ExecutionSegment, USER_KERNEL_BARRIER};
use super::paging::{addresses, pages_between, segment_pages, unmap_task, STACK_SIZE};
use super::process::{only_state_changed, same_except_stack, same_except_state, state_after_child_exit, Process};
use super::regs::EnvironmentRegisters;
use super::state::RunState;
use super::vm::{Subsystem, VMState};
use super::switching::{changed_only_at, lemma_slot_change_keeps_table, next_process, TaskMap};

verus! {

/// Registers that a loaded program asks to start with; each one it leaves
/// out takes its default.
#[derive(Copy, Clone, Debug, PartialEq, Eq, Structural)]
pub struct InitialRegisters {
    pub eip: Option<u32>,
    pub cs: Option<u32>,
    pub ds: Option<u32>,
    pub es: Option<u32>,
    pub ss: Option<u32>,
}

/// The value of a register: the one asked for, or the default.
pub open spec fn register_or(asked: Option<u32>, default: u32) -> u32 {
    match asked {
        Some(v) => v,
        None => default,
    }
}

/// The first part of exec, once the loader has opened the executable
/// `(drive_id, handle)` and read its segments: the running process gets the
/// new segments (its heap starting, empty, after them), a DOS virtual
/// machine if the program needs one, and the new executable. Returns the
/// pages to unmap (those of the old segments, the user stack, and the new
/// heap's page range, which the caller computes after the segments are
/// replaced) and the previous executable, which the caller closes.
pub fn exec_replace_program(
    tasks: &mut TaskMap,
    drive_id: DriveID,
    handle: LocalHandle,
    segments: Vec<ExecutionSegment>,
    require_vm: bool,
) -> (r: (Vec<VirtualAddress>, Option<(DriveID, LocalHandle)>))
    requires
        old(tasks).wf(),
        old(tasks).has(old(tasks).current_id),
        segments_fit(segments@),
        page_ceil(segments_high(segments@)) + 0x1000 <= u32::MAX,
        ({
            let old_segs = old(tasks).process(old(tasks).current_id).memory.execution_segments@;
            forall|i: int| 0 <= i < old_segs.len() ==> (#[trigger] old_segs[i]).address.0 + old_segs[i].size + 0x1000
                <= u32::MAX
        }),
    ensures
        final(tasks).wf(),
        final(tasks).current_id == old(tasks).current_id,
        ({
            let i = old(tasks).index_of(old(tasks).current_id);
            let before = old(tasks).processes@[i];
            let after = final(tasks).processes@[i];
            let high = segments_high(segments@);
            &&& changed_only_at(old(tasks).processes@, final(tasks).processes@, i)
            &&& after.memory.execution_segments@ == segments@
            &&& after.memory.heap_start.0 == high
            &&& after.memory.heap_size == 0
            &&& after.memory.mmap_regions@ == before.memory.mmap_regions@
            &&& after.memory.memory_top == before.memory.memory_top
            &&& after.exec_file == Some((drive_id, handle))
            &&& after.subsystem == if require_vm { Subsystem::DOS(VMState { interrupts_enabled: false }) } else { before.subsystem }
            &&& after.state == before.state
            &&& after.saved_state == before.saved_state
            &&& after.on_exit_vm == before.on_exit_vm
            &&& same_except_state(before, Process { exec_file: before.exec_file, subsystem: before.subsystem, ..after })
            &&& addresses(r.0@) == segment_pages(before.memory.execution_segments@)
                + pages_between(USER_KERNEL_BARRIER - STACK_SIZE, USER_KERNEL_BARRIER as int)
                + pages_between(high, page_ceil(high))
            &&& r.1 == before.exec_file
        }),
{
    let i = tasks.position(tasks.current_id).unwrap();
    let ghost before = *tasks;
    let old_exec = tasks.processes[i].prepare_exec_mapping(segments);
    let heap_range = tasks.processes[i].memory.get_heap_page_range();
    let pages = unmap_task(&old_exec, heap_range);
    if require_vm {
        tasks.processes[i].subsystem = Subsystem::DOS(VMState::new());
    }
    let to_close = tasks.processes[i].set_exec_file(drive_id, handle);
    proof {
        lemma_slot_change_keeps_table(before, *tasks, i as int);
    }
    (pages, to_close)
}

/// The second part of exec, once the previous executable is closed: the
/// running process's kernel stack pointer returns to the top of its stack,
/// and the registers to enter the program with are returned. Interrupts are
/// enabled, and a DOS program runs in virtual 8086 mode; the user stack
/// starts below the kernel's half of memory, and segments the program does
/// not ask for are the user data (0x23) and user code (0x1b) selectors.
pub fn exec_start_program(tasks: &mut TaskMap, require_vm: bool, registers: InitialRegisters) -> (r: EnvironmentRegisters)
    requires
        old(tasks).wf(),
        old(tasks).has(old(tasks).current_id),
    ensures
        final(tasks).wf(),
        final(tasks).current_id == old(tasks).current_id,
        ({
            let i = old(tasks).index_of(old(tasks).current_id);
            let before = old(tasks).processes@[i];
            let after = final(tasks).processes@[i];
            &&& changed_only_at(old(tasks).processes@, final(tasks).processes@, i)
            &&& after.stack_pointer == before.kernel_stack.unwrap().start + before.kernel_stack.unwrap().data@.len() - 4
            &&& same_except_stack(before, after)
            &&& after.kernel_stack == before.kernel_stack
        }),
        r == (EnvironmentRegisters {
            eax: 0,
            ecx: 0,
            edx: 0,
            ebx: 0,
            ebp: 0,
            esi: 0,
            edi: 0,
            eip: register_or(registers.eip, 0),
            cs: register_or(registers.cs, 0x1b),
            flags: if require_vm { 0x20200 } else { 0x200 },
            esp: 0xbffffffc,
            ss: register_or(registers.ss, 0x23),
            es: register_or(registers.es, 0x23),
            ds: register_or(registers.ds, 0x23),
            fs: 0,
            gs: 0,
        }),
{
    let i = tasks.position(tasks.current_id).unwrap();
    let ghost before = *tasks;
    tasks.processes[i].reset_stack_pointer();
    proof {
        lemma_slot_change_keeps_table(before, *tasks, i as int);
    }
    let mut flags: u32 = 0x200;
    if require_vm {
        flags = flags | 0x20000;
        assert(0x200u32 | 0x20000u32 == 0x20200u32) by (bit_vector);
    }
    EnvironmentRegisters {
        flags,
        edi: 0,
        esi: 0,
        ebp: 0,
        esp: 0xbffffffc,
        ebx: 0,
        edx: 0,
        ecx: 0,
        eax: 0,
        gs: 0,
        fs: 0,
        // selectors of the user data (0x20) and code (0x18) segments, at
        // privilege level 3
        es: match registers.es { Some(v) => v, None => 0x23 },
        ds: match registers.ds { Some(v) => v, None => 0x23 },
        ss: match registers.ss { Some(v) => v, None => 0x23 },
        cs: match registers.cs { Some(v) => v, None => 0x1b },
        eip: match registers.eip { Some(v) => v, None => 0 },
    }
}

/// End the running process with `exit_code`: it is marked terminated, its
/// parent (when still present) learns of the exit, and the next process to
/// run is picked.
pub fn terminate(tasks: &mut TaskMap, exit_code: u32) -> (r: Option<ProcessID>)
    requires
        old(tasks).wf(),
        old(tasks).has(old(tasks).current_id),
    ensures
        final(tasks).wf(),
        ({
            let i = old(tasks).index_of(old(tasks).current_id);
            let me = old(tasks).processes@[i];
            let parent_id = me.parent_id;
            let p = old(tasks).index_of(parent_id);
            &&& final(tasks).processes@.len() == old(tasks).processes@.len()
            &&& final(tasks).processes@[i].state == RunState::Terminated
            &&& only_state_changed(me, final(tasks).processes@[i])
            &&& forall|j: int| 0 <= j < old(tasks).processes@.len() && j != i
                && !(old(tasks).has(parent_id) && j == p) ==> #[trigger] final(tasks).processes@[j]
                == old(tasks).processes@[j]
            &&& old(tasks).has(parent_id) && p != i ==> {
                &&& final(tasks).processes@[p].state == state_after_child_exit(
                    old(tasks).processes@[p].state, me.id, exit_code)
                &&& only_state_changed(old(tasks).processes@[p], final(tasks).processes@[p])
            }
        }),
        r == next_process(final(tasks).processes@, old(tasks).current_id),
        final(tasks).current_id == (match r {
            Some(id) => id,
            None => old(tasks).current_id,
        }),
{
    let i = tasks.position(tasks.current_id).unwrap();
    let ghost before = *tasks;
    tasks.processes[i].terminate();
    let cur_id = tasks.processes[i].id;
    let parent_id = tasks.processes[i].parent_id;
    proof {
        lemma_slot_change_keeps_table(before, *tasks, i as int);
    }
    let ghost middle = *tasks;
    match tasks.position(parent_id) {
        Some(p) => {
            tasks.processes[p].child_returned(cur_id, exit_code);
            proof {
                lemma_slot_change_keeps_table(middle, *tasks, p as int);
            }
        },
        None => {},
    }
    tasks.yield_coop()
}

/// Set the end of the running process's heap to `addr`, returning the new
/// end. An address below the heap's start is refused.
pub fn set_heap_top(tasks: &mut TaskMap, addr: VirtualAddress) -> (r: Result<VirtualAddress, ()>)
    requires
        old(tasks).wf(),
        old(tasks).has(old(tasks).current_id),
    ensures
        final(tasks).wf(),
        final(tasks).current_id == old(tasks).current_id,
        ({
            let i = old(tasks).index_of(old(tasks).current_id);
            let before = old(tasks).processes@[i];
            let after = final(tasks).processes@[i];
            if addr.0 < before.memory.heap_start.0 {
                r is Err && final(tasks).processes@ == old(tasks).processes@
            } else {
                &&& r == Ok::<VirtualAddress, ()>(addr)
                &&& changed_only_at(old(tasks).processes@, final(tasks).processes@, i)
                &&& after.memory.heap_size == addr.0 - before.memory.heap_start.0
                &&& after.memory.heap_start == before.memory.heap_start
                &&& after.memory.mmap_regions@ == before.memory.mmap_regions@
                &&& after.memory.execution_segments@ == before.memory.execution_segments@
                &&& after.memory.memory_top == before.memory.memory_top
                &&& after.state == before.state
                &&& same_except_state(before, after)
            }
        }),
{
    let i = tasks.position(tasks.current_id).unwrap();
    let heap_start = tasks.processes[i].memory.get_heap_start();
    if addr.0 < heap_start.0 {
        return Err(());
    }
    let size = addr.distance_from(heap_start);
    let ghost before = *tasks;
    tasks.processes[i].memory.set_heap_size(size);
    proof {
        lemma_slot_change_keeps_table(before, *tasks, i as int);
    }
    let start = tasks.processes[i].memory.get_heap_start();
    Ok(start.offset(tasks.processes[i].memory.get_heap_size()))
}

/// A heap size read as a signed number: sizes above the largest `isize` wrap
/// around to negative values.
pub open spec fn signed_size(size: usize) -> int {
    if size <= isize::MAX { size as int } else { size - usize::MAX - 1 }
}

/// Move the end of the running process's heap by `delta` bytes, returning
/// the new end. A move below the heap's start is refused.
pub fn move_heap_top(tasks: &mut TaskMap, delta: isize) -> (r: Result<VirtualAddress, ()>)
    requires
        old(tasks).wf(),
        old(tasks).has(old(tasks).current_id),
        ({
            let m = old(tasks).process(old(tasks).current_id).memory;
            let size = signed_size(m.heap_size) + delta;
            &&& delta != 0 ==> isize::MIN <= size <= isize::MAX
            &&& delta != 0 && size >= 0 ==> m.heap_start.0 + size <= u32::MAX
            &&& m.heap_start.0 + m.heap_size <= u32::MAX
        }),
    ensures
        final(tasks).wf(),
        final(tasks).current_id == old(tasks).current_id,
        ({
            let i = old(tasks).index_of(old(tasks).current_id);
            let before = old(tasks).processes@[i];
            let after = final(tasks).processes@[i];
            let size = if delta == 0 { before.memory.heap_size as int } else { signed_size(before.memory.heap_size) + delta };
            if size < 0 {
                r is Err && final(tasks).processes@ == old(tasks).processes@
            } else {
                &&& r matches Ok(end) && end.0 == before.memory.heap_start.0 + size
                &&& changed_only_at(old(tasks).processes@, final(tasks).processes@, i)
                &&& after.memory.heap_size == size
                &&& after.memory.heap_start == before.memory.heap_start
                &&& after.memory.mmap_regions@ == before.memory.mmap_regions@
                &&& after.memory.execution_segments@ == before.memory.execution_segments@
                &&& after.memory.memory_top == before.memory.memory_top
                &&& after.state == before.state
                &&& same_except_state(before, after)
            }
        }),
{
    let i = tasks.position(tasks.current_id).unwrap();
    if delta != 0 {
        let current_size = tasks.processes[i].memory.get_heap_size();
        // the size read as a signed number, as a two's-complement cast reads it
        let signed: isize = if current_size <= isize::MAX as usize {
            current_size as isize
        } else {
            -((usize::MAX - current_size) as isize) - 1
        };
        let new_size = signed + delta;
        if new_size < 0 {
            return Err(());
        }
        let ghost before = *tasks;
        tasks.processes[i].memory.set_heap_size(new_size as usize);
        proof {
            lemma_slot_change_keeps_table(before, *tasks, i as int);
        }
    }
    let start = tasks.processes[i].memory.get_heap_start();
    Ok(start.offset(tasks.processes[i].memory.get_heap_size()))
}

} // verus!
